pub mod bytecode_interpreter;
