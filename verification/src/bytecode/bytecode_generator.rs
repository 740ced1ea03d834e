//! The bytecode compiler: one postorder walk of the expression tree, so
//! that the stack machine always sees operands before operators.
//!
//! Layout, byte-exact: `PUSH` (0) carries an 8-byte little-endian double;
//! `IDENTIFIER` (6) carries one length byte and the UTF-8 bytes of the
//! name, and the assignment it belongs to closes with `VARWRITE` (7) after
//! the value subtree; each binary operator is a single byte (1 to 5).

use vstd::prelude::*;

use crate::ast::ast::{wf_expr, ASTNode, AstModel};
use vstd::bytes::{spec_u64_to_le_bytes, u64_to_le_bytes};
use vstd::utf8::encode_utf8;

verus! {

/// The bytes an expression compiles to.
pub open spec fn compiled(e: AstModel) -> Seq<u8>
    decreases e,
{
    match e {
        AstModel::Number { value } => seq![0u8] + spec_u64_to_le_bytes(value),
        AstModel::Assignment { name, value } => seq![6u8, encode_utf8(name).len() as u8]
            + encode_utf8(name) + compiled(*value) + seq![7u8],
        AstModel::Exponentiate { left, right } => compiled(*left) + compiled(*right) + seq![5u8],
        AstModel::Add { left, right } => compiled(*left) + compiled(*right) + seq![1u8],
        AstModel::Subtract { left, right } => compiled(*left) + compiled(*right) + seq![2u8],
        AstModel::Multiply { left, right } => compiled(*left) + compiled(*right) + seq![3u8],
        AstModel::Divide { left, right } => compiled(*left) + compiled(*right) + seq![4u8],
    }
}

fn push_slice(code: &mut Vec<u8>, bytes: &[u8])
    ensures
        final(code)@ == old(code)@ + bytes@,
{
    let n = bytes.len();
    let mut i: usize = 0;
    proof {
        assert(code@ =~= old(code)@ + bytes@.subrange(0, 0));
    }
    while i < n
        invariant
            n == bytes@.len(),
            i <= n,
            code@ == old(code)@ + bytes@.subrange(0, i as int),
        decreases n - i,
    {
        code.push(bytes[i]);
        i = i + 1;
        proof {
            assert(code@ =~= old(code)@ + bytes@.subrange(0, i as int));
        }
    }
    proof {
        assert(code@ =~= old(code)@ + bytes@);
    }
}

/// Emit the code of one subtree: children first, then the operator.
fn emit(ast: &ASTNode, code: &mut Vec<u8>)
    requires
        wf_expr(ast@),
    ensures
        final(code)@ == old(code)@ + compiled(ast@),
    decreases ast,
{
    match ast {
        ASTNode::Number { value } => {
            code.push(0);
            let bytes = u64_to_le_bytes(*value);
            push_slice(code, bytes.as_slice());
            proof {
                assert(code@ =~= old(code)@ + compiled(ast@));
            }
        },
        ASTNode::Assignment { name, value } => {
            code.push(6);
            code.push(name.as_str().len() as u8);
            push_slice(code, name.as_str().as_bytes());
            emit(value, code);
            code.push(7);
            proof {
                assert(code@ =~= old(code)@ + compiled(ast@));
            }
        },
        ASTNode::Exponentiate { left, right } => {
            emit(left, code);
            emit(right, code);
            code.push(5);
            proof {
                assert(code@ =~= old(code)@ + compiled(ast@));
            }
        },
        ASTNode::Add { left, right } => {
            emit(left, code);
            emit(right, code);
            code.push(1);
            proof {
                assert(code@ =~= old(code)@ + compiled(ast@));
            }
        },
        ASTNode::Subtract { left, right } => {
            emit(left, code);
            emit(right, code);
            code.push(2);
            proof {
                assert(code@ =~= old(code)@ + compiled(ast@));
            }
        },
        ASTNode::Multiply { left, right } => {
            emit(left, code);
            emit(right, code);
            code.push(3);
            proof {
                assert(code@ =~= old(code)@ + compiled(ast@));
            }
        },
        ASTNode::Divide { left, right } => {
            emit(left, code);
            emit(right, code);
            code.push(4);
            proof {
                assert(code@ =~= old(code)@ + compiled(ast@));
            }
        },
    }
}

/// Given an expression tree, generate the byte sequence of its program.
pub fn generate(ast: &ASTNode) -> (code: Vec<u8>)
    requires
        wf_expr(ast@),
    ensures
        code@ == compiled(ast@),
{
    let mut code = Vec::new();
    emit(ast, &mut code);
    proof {
        assert(code@ =~= compiled(ast@));
    }
    code
}

} // verus!
