//! Walc: a small arithmetic expression language, compiled to a compact
//! byte stream and run on a stack machine.
//!
//! The pipeline is strictly linear: source text is lexed into classified
//! lexemes, parsed into an expression tree with multi-error recovery,
//! compiled in one postorder walk into bytecode, and executed on a typed
//! operand stack against a name-to-value binding table. Doubles are carried
//! everywhere as their IEEE-754 bit patterns, so that the whole pipeline
//! can be verified over plain integers.

use vstd::prelude::*;

pub mod ast;
pub mod bytecode;
pub mod bytecode_interpreter;
pub mod frontend;
pub mod interp;
pub mod semantics;
pub mod text;
pub mod values;
pub mod vm;

use crate::bytecode::bytecode_generator::{compiled, generate};
use crate::frontend::lexer::{lex, lex_model};
use crate::frontend::parser::{parse, parse_model};
use crate::values::{rendered, value_text};
use crate::vm::interpreter::execute;
use crate::vm::runtime_state::exec_model;

verus! {

/// What interpreting a source text yields: the rendering of the computed
/// value, or the first stage's error text (lexing, parsing or execution);
/// an empty program yields an empty error.
pub open spec fn interpret_model(source: Seq<char>) -> Result<Seq<char>, Seq<char>> {
    let lx = lex_model(source);
    if lx.errors.len() > 0 {
        Err(lx.errors)
    } else {
        match parse_model(lx.lexemes) {
            None => Err(Seq::empty()),
            Some(Err(e)) => Err(e),
            Some(Ok(tree)) => match exec_model(compiled(tree)) {
                Ok(bits) => Ok(rendered(bits)),
                Err(e) => Err(e),
            },
        }
    }
}

/// Interface for the language: takes a source program and returns the
/// rendered result of the computation, or an error.
pub fn interpret(source_code: &str) -> (r: Result<String, String>)
    requires
        source_code@.len() < usize::MAX,
    ensures
        match r {
            Ok(s) => interpret_model(source_code@) matches Ok(ms) && s@ == ms,
            Err(e) => interpret_model(source_code@) matches Err(me) && e@ == me,
        },
{
    let tokens = match lex(source_code) {
        Ok(tokens) => tokens,
        Err(lex_error) => { return Err(lex_error) },
    };
    proof {
        crate::semantics::theorem_lexemes_well_formed(source_code@);
    }
    let ast = match parse(tokens) {
        Some(Ok(ast)) => ast,
        Some(Err(parse_error)) => { return Err(parse_error) },
        None => { return Err(String::new()) },
    };
    proof {
        crate::semantics::theorem_compiled_code_runs(ast@);
    }
    let bytecode = generate(&ast);
    match execute(&bytecode) {
        Ok(value) => Ok(value_text(value)),
        Err(runtime_error) => Err(runtime_error),
    }
}

} // verus!
