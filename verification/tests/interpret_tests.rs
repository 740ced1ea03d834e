//! Tests of the whole pipeline, from source text to rendered result.

use walc::interpret;

#[test]
fn test_interpret_div() {
    let source = "(3 + 5 + 2 - 2) * 2 / 8";
    assert_eq!(Ok("2".to_string()), interpret(source));
}

#[test]
fn test_div_zero() {
    let source = "1 / 0";
    assert_eq!(Err("Cannot divide by zero.\nNo result.\n".to_string()), interpret(source));
}

#[test]
fn lib_test_double_exponentiate() {
    let source = "2**3**2";
    assert_eq!(Ok("512".to_string()), interpret(source));
}

#[test]
fn lib_test_assign() {
    let source = "x = 3 - 2";
    assert_eq!(Ok("1".to_string()), interpret(source));
}

#[test]
fn test_paren_precedence() {
    let source = "(3 + 5) * 3 / -2";
    assert_eq!(Ok("-12".to_string()), interpret(source));
}

#[test]
fn test_empty_program() {
    assert_eq!(Err(String::new()), interpret(""));
}

#[test]
fn test_fractional_literals() {
    assert_eq!(Ok("5".to_string()), interpret("2.5 + 2.5"));
    assert_eq!(Ok("0.75".to_string()), interpret("3 / 4"));
}

#[test]
fn test_fractional_exponent() {
    // IEEE power semantics: fractional exponents are allowed.
    assert_eq!(Ok("3".to_string()), interpret("9 ** 0.5"));
}

#[test]
fn test_lex_error_reported_first() {
    assert_eq!(Err("Unterminated float.\nUnterminated float.\n".to_string()), interpret("3. + 5."));
}

#[test]
fn test_interpret_negative_fold() {
    // The minus/number fusion quirk: "3 -2" is two numbers with no
    // operator between them, so the second is trailing input.
    assert_eq!(
        Err("Expected EOF, got Lexeme { lexeme_type: Numeric, line: 1, text: \"-2\" }.\n "
            .to_string()),
        interpret("3 -2")
    );
}
