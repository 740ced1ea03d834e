//! Tests of the full virtual machine: the eight-opcode stream with typed
//! stack cells and the binding table.

use walc::bytecode::opcode::Opcode;
use walc::bytecode::opcode::Opcode::{IDENTIFIER, MULTIPLY, SUBTRACT, VARWRITE};
use walc::vm::interpreter::execute;
use walc::vm::scope_binding::Binding;

#[test]
fn interpreter_test_add() {
    // 1 + (MAX - 1)
    let mut code = Vec::new();

    code.push(0u8);
    code.extend_from_slice(&f64::to_le_bytes(1.0));
    code.push(0u8);
    code.extend_from_slice(&f64::to_le_bytes(f64::MAX - 1.0));
    code.push(1u8);

    // Run the calculation.
    assert_eq!(f64::from_bits(execute(&code).unwrap()), f64::MAX);
}

#[test]
fn interpreter_test_subtract() {
    // 1 - 2
    let mut code = Vec::new();

    code.push(0u8);
    code.extend_from_slice(&f64::to_le_bytes(1.0));
    code.push(0u8);
    code.extend_from_slice(&f64::to_le_bytes(2.0));
    code.push(2u8);

    assert_eq!(f64::from_bits(execute(&code).unwrap()), -1.0);
}

#[test]
fn interpreter_test_multiply() {
    // 2 * 128
    let mut code = Vec::new();

    code.push(0u8);
    code.extend_from_slice(&f64::to_le_bytes(2.0));
    code.push(0u8);
    code.extend_from_slice(&f64::to_le_bytes(128.0));
    code.push(3u8);

    assert_eq!(f64::from_bits(execute(&code).unwrap()), 256.0);
}

#[test]
fn interpreter_test_divide() {
    // 2 / 4
    let mut code = Vec::new();

    code.push(0u8);
    code.extend_from_slice(&f64::to_le_bytes(2.0));
    code.push(0u8);
    code.extend_from_slice(&f64::to_le_bytes(4.0));
    code.push(4u8);

    assert_eq!(f64::from_bits(execute(&code).unwrap()), 0.5);
}

#[test]
fn interpreter_test_divide_zero() {
    // 2 / 0
    let mut code = Vec::new();

    code.push(0u8);
    code.extend_from_slice(&f64::to_le_bytes(2.0));
    code.push(0u8);
    code.extend_from_slice(&f64::to_le_bytes(0.0));
    code.push(4u8);

    assert_eq!(execute(&code), Err("Cannot divide by zero.\nNo result.\n".to_string()));
}

#[test]
fn interpreter_test_pow() {
    // 2 ** 2
    let mut code = Vec::new();
    code.push(0u8);
    code.extend_from_slice(&f64::to_le_bytes(2.0));
    code.push(0u8);
    code.extend_from_slice(&f64::to_le_bytes(2.0));
    code.push(5u8);

    assert_eq!(f64::from_bits(execute(&code).unwrap()), 4.0);
}

#[test]
fn interpreter_test_double_exp() {
    // 2 ** 3 ** 2
    let mut code = Vec::new();

    code.push(0u8);
    code.extend_from_slice(&f64::to_le_bytes(2.0));
    code.push(0u8);
    code.extend_from_slice(&f64::to_le_bytes(3.0));
    code.push(0u8);
    code.extend_from_slice(&f64::to_le_bytes(2.0));
    code.push(5u8); // 3 ** 2
    code.push(5u8);

    assert_eq!(f64::from_bits(execute(&code).unwrap()), 512.0);
}

#[test]
fn interpreter_test_assign_access() {
    // value_a = 2 - 3 * 2, but with the identifier pushed after the value:
    // the write then finds the name on top where it expects the value, a
    // type mismatch on the stack, and the stream evaluates to that error.
    let mut code = Vec::new();

    // 2
    code.push(0u8);
    code.extend_from_slice(&f64::to_le_bytes(2.0));

    // 3 * 2
    code.push(0u8);
    code.extend_from_slice(&f64::to_le_bytes(2.0));
    code.push(0u8);
    code.extend_from_slice(&f64::to_le_bytes(3.0));
    code.push(Opcode::byte_from_opcode(&MULTIPLY));

    // 2 - 3 * 2
    code.push(Opcode::byte_from_opcode(&SUBTRACT));

    let identifier = "value_a";
    code.push(Opcode::byte_from_opcode(&IDENTIFIER));
    code.push(identifier.len() as u8);
    code.extend_from_slice(identifier.as_bytes());

    code.push(Opcode::byte_from_opcode(&VARWRITE));

    assert_eq!(
        execute(&code),
        Err("Expected 64-bit float on stack, found too few bytes.\n".to_string())
    );
}

#[test]
fn test_assignment_order() {
    // The compiler emits the identifier before the value subtree, so the
    // write pops the value first, binds it, and pushes it back: the
    // assignment evaluates to the assigned value.
    let identifier = "value_a";
    let mut code = Vec::new();

    code.push(Opcode::byte_from_opcode(&IDENTIFIER));
    code.push(identifier.len() as u8);
    code.extend_from_slice(identifier.as_bytes());

    // 2 - 3 * 2
    code.push(0u8);
    code.extend_from_slice(&f64::to_le_bytes(2.0));
    code.push(0u8);
    code.extend_from_slice(&f64::to_le_bytes(2.0));
    code.push(0u8);
    code.extend_from_slice(&f64::to_le_bytes(3.0));
    code.push(Opcode::byte_from_opcode(&MULTIPLY));
    code.push(Opcode::byte_from_opcode(&SUBTRACT));

    code.push(Opcode::byte_from_opcode(&VARWRITE));

    assert_eq!(f64::from_bits(execute(&code).unwrap()), -4.0);
}

#[test]
fn test_truncated_operand() {
    // A push with fewer than eight operand bytes: unrecoverable.
    let code = vec![0u8, 1u8, 2u8];
    assert_eq!(
        execute(&code),
        Err("Not enough bytes to convert static code into float.\n".to_string())
    );
}

#[test]
fn test_corrupt_identifier() {
    // An identifier whose bytes are not UTF-8: unrecoverable.
    let code = vec![6u8, 1u8, 0xFFu8];
    assert_eq!(
        execute(&code),
        Err(
            "Bytecode UTF conversion error. Expected: stream of valid UTF8 bytes for identifier.\n"
                .to_string()
        )
    );
}

#[test]
fn test_insufficient_operands() {
    // A lone operator, and the empty stack at the end compounds the report.
    let code = vec![1u8];
    assert_eq!(
        execute(&code),
        Err(
            "Binary operation attempted with insufficient operands!\nNo result.\n".to_string()
        )
    );
}

#[test]
fn test_binding_set_get() {
    let mut binding = Binding::new();
    assert_eq!(binding.get_bind("x"), None);
    binding.set_bind(String::from("x"), (1.0f64).to_bits());
    binding.set_bind(String::from("y"), (2.5f64).to_bits());
    assert_eq!(binding.get_bind("x").map(f64::from_bits), Some(1.0));
    assert_eq!(binding.get_bind("y").map(f64::from_bits), Some(2.5));
    binding.set_bind(String::from("x"), (3.0f64).to_bits());
    assert_eq!(binding.get_bind("x").map(f64::from_bits), Some(3.0));
    assert_eq!(binding.get_bind("z"), None);
}

#[test]
fn test_execution_repeatable() {
    // Re-executing the same byte sequence starts from a fresh binding
    // table and stack, so the result is the same every time.
    let identifier = "value_a";
    let mut code = Vec::new();
    code.push(Opcode::byte_from_opcode(&IDENTIFIER));
    code.push(identifier.len() as u8);
    code.extend_from_slice(identifier.as_bytes());
    code.push(0u8);
    code.extend_from_slice(&f64::to_le_bytes(41.5));
    code.push(Opcode::byte_from_opcode(&VARWRITE));

    let first = execute(&code);
    let second = execute(&code);
    assert_eq!(first, second);
    assert_eq!(f64::from_bits(first.unwrap()), 41.5);
}
