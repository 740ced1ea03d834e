//! Tests of the two compilers: the full one (assignments, exponentiation)
//! checked through the virtual machine, and the arithmetic core's one
//! checked through the aggregating five-opcode machine.

use walc::ast::ast::ASTNode;
use walc::ast::bytecode_generator::generate as token_generate;
use walc::ast::token::Token;
use walc::bytecode::bytecode_generator::generate;
use walc::interp::bytecode_interpreter::interpret;
use walc::vm::interpreter::execute;

#[test]
fn bytecode_generator_test_add() {
    // 1 + -2
    let left = Box::new(ASTNode::Number { value: (1.0f64).to_bits() });
    let right = Box::new(ASTNode::Number { value: (-2.0f64).to_bits() });
    let add = ASTNode::Add { left, right };

    let bytecode = generate(&add);
    assert_eq!(-1.0, f64::from_bits(execute(&bytecode).unwrap()));

    let left = Box::new(Token::Number { value: (1.0f64).to_bits() });
    let right = Box::new(Token::Number { value: (-2.0f64).to_bits() });
    let add = Token::Add { left, right };

    let bytecode = token_generate(&add);
    assert_eq!(-1.0, f64::from_bits(interpret(&bytecode).unwrap()));
}

#[test]
fn bytecode_generator_test_subtract() {
    // 1 - 2
    let left = Box::new(ASTNode::Number { value: (1.0f64).to_bits() });
    let right = Box::new(ASTNode::Number { value: (2.0f64).to_bits() });
    let subtract = ASTNode::Subtract { left, right };

    let bytecode = generate(&subtract);
    assert_eq!(-1.0, f64::from_bits(execute(&bytecode).unwrap()));

    let left = Box::new(Token::Number { value: (1.0f64).to_bits() });
    let right = Box::new(Token::Number { value: (2.0f64).to_bits() });
    let subtract = Token::Subtract { left, right };

    let bytecode = token_generate(&subtract);
    assert_eq!(-1.0, f64::from_bits(interpret(&bytecode).unwrap()));
}

#[test]
fn bytecode_generator_test_multiply() {
    // 2 * -2
    let left = Box::new(ASTNode::Number { value: (2.0f64).to_bits() });
    let right = Box::new(ASTNode::Number { value: (-2.0f64).to_bits() });
    let multiply = ASTNode::Multiply { left, right };

    let bytecode = generate(&multiply);
    assert_eq!(-4.0, f64::from_bits(execute(&bytecode).unwrap()));

    let left = Box::new(Token::Number { value: (2.0f64).to_bits() });
    let right = Box::new(Token::Number { value: (-2.0f64).to_bits() });
    let multiply = Token::Multiply { left, right };

    let bytecode = token_generate(&multiply);
    assert_eq!(-4.0, f64::from_bits(interpret(&bytecode).unwrap()));
}

#[test]
fn bytecode_generator_test_divide() {
    // -2 / 4
    let left = Box::new(ASTNode::Number { value: (-2.0f64).to_bits() });
    let right = Box::new(ASTNode::Number { value: (4.0f64).to_bits() });
    let div = ASTNode::Divide { left, right };

    let bytecode = generate(&div);
    assert_eq!(-0.5, f64::from_bits(execute(&bytecode).unwrap()));

    let left = Box::new(Token::Number { value: (-2.0f64).to_bits() });
    let right = Box::new(Token::Number { value: (4.0f64).to_bits() });
    let div = Token::Divide { left, right };

    let bytecode = token_generate(&div);
    assert_eq!(-0.5, f64::from_bits(interpret(&bytecode).unwrap()));
}

#[test]
fn bytecode_generator_test_divide_zero() {
    // 1 / 0
    let left = Box::new(ASTNode::Number { value: (1.0f64).to_bits() });
    let right = Box::new(ASTNode::Number { value: (0.0f64).to_bits() });
    let div = ASTNode::Divide { left, right };

    let bytecode = generate(&div);
    assert_eq!(
        Err("Cannot divide by zero.\nNo result.\n".to_string()),
        execute(&bytecode)
    );

    let left = Box::new(Token::Number { value: (1.0f64).to_bits() });
    let right = Box::new(Token::Number { value: (0.0f64).to_bits() });
    let div = Token::Divide { left, right };

    let bytecode = token_generate(&div);
    assert_eq!(
        Err("Cannot divide by zero.\nNo result.\n".to_string()),
        interpret(&bytecode)
    );
}

#[test]
fn test_generate_layout() {
    // The byte-exact layout of an assignment: IDENTIFIER, one length byte,
    // the name, the value subtree, then VARWRITE.
    let tree = ASTNode::Assignment {
        name: String::from("ab"),
        value: Box::new(ASTNode::Number { value: (1.5f64).to_bits() }),
    };
    let mut expected: Vec<u8> = vec![6u8, 2u8, b'a', b'b', 0u8];
    expected.extend_from_slice(&f64::to_le_bytes(1.5));
    expected.push(7u8);
    assert_eq!(expected, generate(&tree));
}
