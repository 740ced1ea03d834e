//! The expression tree built by the parser. Every leaf is a number; the
//! tree is owned top-down and acyclic by construction.
//!
//! Numeric leaves carry the IEEE-754 bit pattern of their double value.

use vstd::prelude::*;

use vstd::utf8::encode_utf8;

verus! {

#[derive(Debug, PartialEq)]
pub enum ASTNode {
    Number { value: u64 },
    Assignment { name: String, value: Box<ASTNode> },
    Exponentiate { left: Box<ASTNode>, right: Box<ASTNode> },
    Add { left: Box<ASTNode>, right: Box<ASTNode> },
    Subtract { left: Box<ASTNode>, right: Box<ASTNode> },
    Multiply { left: Box<ASTNode>, right: Box<ASTNode> },
    Divide { left: Box<ASTNode>, right: Box<ASTNode> },
}

/// The expression tree seen mathematically: names are character sequences,
/// numbers are bit patterns.
pub ghost enum AstModel {
    Number { value: u64 },
    Assignment { name: Seq<char>, value: Box<AstModel> },
    Exponentiate { left: Box<AstModel>, right: Box<AstModel> },
    Add { left: Box<AstModel>, right: Box<AstModel> },
    Subtract { left: Box<AstModel>, right: Box<AstModel> },
    Multiply { left: Box<AstModel>, right: Box<AstModel> },
    Divide { left: Box<AstModel>, right: Box<AstModel> },
}

/// The model of a tree.
pub open spec fn ast_model(e: ASTNode) -> AstModel
    decreases e,
{
    match e {
        ASTNode::Number { value } => AstModel::Number { value },
        ASTNode::Assignment { name, value } => AstModel::Assignment {
            name: name@,
            value: Box::new(ast_model(*value)),
        },
        ASTNode::Exponentiate { left, right } => AstModel::Exponentiate {
            left: Box::new(ast_model(*left)),
            right: Box::new(ast_model(*right)),
        },
        ASTNode::Add { left, right } => AstModel::Add {
            left: Box::new(ast_model(*left)),
            right: Box::new(ast_model(*right)),
        },
        ASTNode::Subtract { left, right } => AstModel::Subtract {
            left: Box::new(ast_model(*left)),
            right: Box::new(ast_model(*right)),
        },
        ASTNode::Multiply { left, right } => AstModel::Multiply {
            left: Box::new(ast_model(*left)),
            right: Box::new(ast_model(*right)),
        },
        ASTNode::Divide { left, right } => AstModel::Divide {
            left: Box::new(ast_model(*left)),
            right: Box::new(ast_model(*right)),
        },
    }
}

impl View for ASTNode {
    type V = AstModel;

    open spec fn view(&self) -> AstModel {
        ast_model(*self)
    }
}

/// A tree the compiler accepts: every assignment target fits in the one
/// length byte of the bytecode's identifier operand.
pub open spec fn wf_expr(e: AstModel) -> bool
    decreases e,
{
    match e {
        AstModel::Number { value } => true,
        AstModel::Assignment { name, value } => encode_utf8(name).len() <= 255 && wf_expr(*value),
        AstModel::Exponentiate { left, right } => wf_expr(*left) && wf_expr(*right),
        AstModel::Add { left, right } => wf_expr(*left) && wf_expr(*right),
        AstModel::Subtract { left, right } => wf_expr(*left) && wf_expr(*right),
        AstModel::Multiply { left, right } => wf_expr(*left) && wf_expr(*right),
        AstModel::Divide { left, right } => wf_expr(*left) && wf_expr(*right),
    }
}

} // verus!
