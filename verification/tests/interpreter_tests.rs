//! Tests of the two five-opcode machines: the aggregating one and the
//! strict, stop-at-first-error one. They share their instruction encoding,
//! so each case runs its bytes through both.

use walc::bytecode_interpreter::interpret as strict_interpret;
use walc::interp::bytecode_interpreter::interpret;

#[test]
fn bytecode_interpreter_test_add() {
    // 1 + (MAX - 1)
    let mut code = Vec::new();

    code.push(0u8);
    code.extend_from_slice(&f64::to_le_bytes(1.0));
    code.push(0u8);
    code.extend_from_slice(&f64::to_le_bytes(f64::MAX - 1.0));
    code.push(1u8);

    // Run the calculation on both machines.
    assert_eq!(f64::from_bits(interpret(&code).unwrap()), f64::MAX);
    assert_eq!(f64::from_bits(strict_interpret(&code).unwrap()), f64::MAX);
}

#[test]
fn bytecode_interpreter_test_subtract() {
    // 1 - 2
    let mut code = Vec::new();

    code.push(0u8);
    code.extend_from_slice(&f64::to_le_bytes(1.0));
    code.push(0u8);
    code.extend_from_slice(&f64::to_le_bytes(2.0));
    code.push(2u8);

    assert_eq!(f64::from_bits(interpret(&code).unwrap()), -1.0);
    assert_eq!(f64::from_bits(strict_interpret(&code).unwrap()), -1.0);
}

#[test]
fn bytecode_interpreter_test_multiply() {
    // 2 * 128
    let mut code = Vec::new();

    code.push(0u8);
    code.extend_from_slice(&f64::to_le_bytes(2.0));
    code.push(0u8);
    code.extend_from_slice(&f64::to_le_bytes(128.0));
    code.push(3u8);

    assert_eq!(f64::from_bits(interpret(&code).unwrap()), 256.0);
    assert_eq!(f64::from_bits(strict_interpret(&code).unwrap()), 256.0);
}

#[test]
fn bytecode_interpreter_test_divide() {
    // 2 / 4
    let mut code = Vec::new();

    code.push(0u8);
    code.extend_from_slice(&f64::to_le_bytes(2.0));
    code.push(0u8);
    code.extend_from_slice(&f64::to_le_bytes(4.0));
    code.push(4u8);

    assert_eq!(f64::from_bits(interpret(&code).unwrap()), 0.5);
    assert_eq!(f64::from_bits(strict_interpret(&code).unwrap()), 0.5);
}

#[test]
fn bytecode_interpreter_test_divide_zero() {
    // 2 / 0
    let mut code = Vec::new();

    code.push(0u8);
    code.extend_from_slice(&f64::to_le_bytes(2.0));
    code.push(0u8);
    code.extend_from_slice(&f64::to_le_bytes(0.0));
    code.push(4u8);

    assert_eq!(interpret(&code), Err("Cannot divide by zero.\nNo result.\n".to_string()));
    assert_eq!(strict_interpret(&code), Err("Attempted division by zero!".to_string()));
}

#[test]
fn test_strict_empty_program() {
    // The strict machine's stack is seeded with one zero.
    let code = Vec::new();
    assert_eq!(f64::from_bits(strict_interpret(&code).unwrap()), 0.0);
}

#[test]
fn test_aggregating_insufficient_operands() {
    // A lone operator has nothing to pop, and an empty stack at the end
    // compounds the report.
    let code = vec![1u8];
    assert_eq!(
        interpret(&code),
        Err(
            "Binary operation attempted with insufficient operands!\nNo result.\n".to_string()
        )
    );
}
