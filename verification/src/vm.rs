pub mod interpreter;
pub mod runtime_state;
pub mod scope_binding;
pub mod stack;
