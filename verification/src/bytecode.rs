pub mod bytecode_generator;
pub mod opcode;
