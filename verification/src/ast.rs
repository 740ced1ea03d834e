pub mod ast;
pub mod bytecode_generator;
pub mod token;
