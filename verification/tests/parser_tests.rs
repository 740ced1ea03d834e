use walc::ast::ast::ASTNode::{Add, Assignment, Divide, Exponentiate, Multiply, Number};
use walc::frontend::lexer::lex;
use walc::frontend::parser::parse;

#[test]
fn test_parse() {
    let input = "(3 + 5) * 3 / -2";
    let lexemes = lex(input);

    let three = Number { value: (3.0f64).to_bits() };
    let five = Number { value: (5.0f64).to_bits() };
    let plus = Add { left: Box::new(three), right: Box::new(five) };
    let three = Number { value: (3.0f64).to_bits() };
    let times = Multiply { left: Box::new(plus), right: Box::new(three) };
    let neg_two = Number { value: (-2.0f64).to_bits() };
    let divide = Divide { left: Box::new(times), right: Box::new(neg_two) };

    assert_eq!(Ok(divide), parse(lexemes.unwrap()).unwrap());
}

#[test]
fn parser_test_empty() {
    let input = "";
    assert_eq!(None, parse(lex(input).unwrap()));
}

#[test]
fn test_invalid_lexeme() {
    let input = "3+";
    assert_eq!(
        Some(Err("Expected number on line 1, got end of file instead.\n".to_string())),
        parse(lex(input).unwrap())
    );
}

#[test]
fn parser_test_multiple_errors() {
    let input = "3 * +";
    assert_eq!(
        Some(Err(
            "Expected number on line 1, got + instead.\nExpected number on line 1, got end of file instead.\n"
                .to_string()
        )),
        parse(lex(input).unwrap())
    );
}

#[test]
fn test_triple_exponentiation() {
    let input = "3 ** 2 ** 1";

    let three = Number { value: (3.0f64).to_bits() };
    let two = Number { value: (2.0f64).to_bits() };
    let one = Number { value: (1.0f64).to_bits() };

    let right_exp = Exponentiate { left: Box::new(two), right: Box::new(one) };
    let left_exp = Exponentiate { left: Box::new(three), right: Box::new(right_exp) };

    assert_eq!(left_exp, parse(lex(input).unwrap()).unwrap().unwrap());
}

#[test]
fn test_multiply_exponentiation() {
    let input = "3 * 2 ** 1";
    let lexemes = lex(input).unwrap();

    parse(lexemes).unwrap().expect("Unexpected parse error");
}

#[test]
fn parser_test_assign() {
    let input = "x_value = 3 + 2";

    let three = Number { value: (3.0f64).to_bits() };
    let two = Number { value: (2.0f64).to_bits() };
    let addition = Add { left: Box::new(three), right: Box::new(two) };
    let assignment = Assignment { name: String::from("x_value"), value: Box::new(addition) };

    assert_eq!(assignment, parse(lex(input).unwrap()).unwrap().unwrap());
}

#[test]
fn test_unterminated_assign() {
    let nothing_after_equals = "x_value =";
    let lexemes = lex(nothing_after_equals).unwrap();
    assert_eq!(
        Err("Expected number on line 1, got end of file instead.\n".to_string()),
        parse(lexemes).unwrap()
    );

    let no_equals = "x_value 3";
    let lexemes = lex(no_equals).unwrap();
    assert_eq!(Err("Expected equals on line 1.\n".to_string()), parse(lexemes).unwrap());
}

#[test]
fn test_unterminated_paren() {
    let input = "(3 + 5";
    assert_eq!(
        Some(Err("Expected ')' on line 1, got end of file instead.\n".to_string())),
        parse(lex(input).unwrap())
    );
}

#[test]
fn test_trailing_input() {
    let input = "3 3";
    assert_eq!(
        Some(Err(
            "Expected EOF, got Lexeme { lexeme_type: Numeric, line: 1, text: \"3\" }.\n "
                .to_string()
        )),
        parse(lex(input).unwrap())
    );
}
