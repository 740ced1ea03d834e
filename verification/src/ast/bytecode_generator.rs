//! The compiler of the arithmetic core: one postorder walk of the tree,
//! emitting operands before operators for the five-opcode machine.

use vstd::prelude::*;

use crate::ast::token::Token;
use vstd::bytes::{spec_u64_to_le_bytes, u64_to_le_bytes};

verus! {

/// The bytes a tree of the arithmetic core compiles to.
pub open spec fn token_compiled(t: Token) -> Seq<u8>
    decreases t,
{
    match t {
        Token::Number { value } => seq![0u8] + spec_u64_to_le_bytes(value),
        Token::Add { left, right } => token_compiled(*left) + token_compiled(*right) + seq![1u8],
        Token::Subtract { left, right } => token_compiled(*left) + token_compiled(*right)
            + seq![2u8],
        Token::Multiply { left, right } => token_compiled(*left) + token_compiled(*right)
            + seq![3u8],
        Token::Divide { left, right } => token_compiled(*left) + token_compiled(*right)
            + seq![4u8],
    }
}

fn push_slice(code: &mut Vec<u8>, bytes: &[u8])
    ensures
        final(code)@ == old(code)@ + bytes@,
{
    let n = bytes.len();
    let mut i: usize = 0;
    proof {
        assert(code@ =~= old(code)@ + bytes@.subrange(0, 0));
    }
    while i < n
        invariant
            n == bytes@.len(),
            i <= n,
            code@ == old(code)@ + bytes@.subrange(0, i as int),
        decreases n - i,
    {
        code.push(bytes[i]);
        i = i + 1;
        proof {
            assert(code@ =~= old(code)@ + bytes@.subrange(0, i as int));
        }
    }
    proof {
        assert(code@ =~= old(code)@ + bytes@);
    }
}

/// Emit the code of one subtree: children first, then the operator.
fn emit(ast: &Token, code: &mut Vec<u8>)
    ensures
        final(code)@ == old(code)@ + token_compiled(*ast),
    decreases ast,
{
    match ast {
        Token::Number { value } => {
            code.push(0);
            let bytes = u64_to_le_bytes(*value);
            push_slice(code, bytes.as_slice());
            proof {
                assert(code@ =~= old(code)@ + token_compiled(*ast));
            }
        },
        Token::Add { left, right } => {
            emit(left, code);
            emit(right, code);
            code.push(1);
            proof {
                assert(code@ =~= old(code)@ + token_compiled(*ast));
            }
        },
        Token::Subtract { left, right } => {
            emit(left, code);
            emit(right, code);
            code.push(2);
            proof {
                assert(code@ =~= old(code)@ + token_compiled(*ast));
            }
        },
        Token::Multiply { left, right } => {
            emit(left, code);
            emit(right, code);
            code.push(3);
            proof {
                assert(code@ =~= old(code)@ + token_compiled(*ast));
            }
        },
        Token::Divide { left, right } => {
            emit(left, code);
            emit(right, code);
            code.push(4);
            proof {
                assert(code@ =~= old(code)@ + token_compiled(*ast));
            }
        },
    }
}

/// Given a tree, generate the byte sequence of its program.
pub fn generate(ast: &Token) -> (code: Vec<u8>)
    ensures
        code@ == token_compiled(*ast),
{
    let mut code = Vec::new();
    emit(ast, &mut code);
    proof {
        assert(code@ =~= token_compiled(*ast));
    }
    code
}

} // verus!
