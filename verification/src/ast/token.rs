//! The expression tree of the arithmetic core: numbers and the four basic
//! operators, with no assignments. Numeric leaves carry the IEEE-754 bit
//! pattern of their double value.

use vstd::prelude::*;

verus! {

#[derive(Debug, PartialEq)]
pub enum Token {
    Number { value: u64 },
    Add { left: Box<Token>, right: Box<Token> },
    Subtract { left: Box<Token>, right: Box<Token> },
    Multiply { left: Box<Token>, right: Box<Token> },
    Divide { left: Box<Token>, right: Box<Token> },
}

} // verus!
