use walc::frontend::lexer::{lex, Lexeme};
use walc::frontend::lexer::LexemeType::{
    CloseParen, DoubleStar, Equals, Identifier, Numeric, OpenParen, Plus, Slash, Star, EOF,
};

#[test]
fn test_lex() {
    let input = "x_\nvalue = (3 + 5)\n * 3 / -2";
    let expected = vec![
        Lexeme::new(Identifier, 1, String::from("x_")),
        Lexeme::new(Identifier, 2, String::from("value")),
        Lexeme::new(Equals, 2, String::from("=")),
        Lexeme::new(OpenParen, 2, String::from("(")),
        Lexeme::new(Numeric, 2, String::from("3")),
        Lexeme::new(Plus, 2, String::from("+")),
        Lexeme::new(Numeric, 2, String::from("5")),
        Lexeme::new(CloseParen, 2, String::from(")")),
        Lexeme::new(Star, 3, String::from("*")),
        Lexeme::new(Numeric, 3, String::from("3")),
        Lexeme::new(Slash, 3, String::from("/")),
        Lexeme::new(Numeric, 3, String::from("-2")),
        Lexeme::new(EOF, 3, String::from("end of file")),
    ];
    let tokens = lex(input);
    assert_eq!(Ok(expected), tokens);
}

#[test]
fn lexer_test_empty() {
    let input = "";
    assert_eq!(
        Ok(vec![Lexeme::new(EOF, 1, String::from("end of file"))]),
        lex(input)
    );
}

#[test]
fn lexer_test_multiple_errors() {
    let input = "3. + 5.";
    assert_eq!(
        Err("Unterminated float.\nUnterminated float.\n".to_string()),
        lex(input)
    );
}

#[test]
fn test_exp() {
    let input = "**";
    assert_eq!(
        Ok(vec![
            Lexeme::new(DoubleStar, 1, String::from("**")),
            Lexeme::new(EOF, 1, String::from("end of file"))
        ]),
        lex(input)
    );
}

#[test]
fn test_unexpected_character() {
    // The message shows the character under the cursor after the offending
    // one was consumed.
    let input = "@1";
    assert_eq!(Err("Unexpected character: '1'.\n".to_string()), lex(input));
}

#[test]
fn test_identifier_too_long() {
    let mut input = String::from("x");
    for _ in 0..255 {
        input.push('y');
    }
    assert_eq!(Err("Name out of bounds!".to_string()), lex(&input));
}

#[test]
fn test_identifier_at_length_limit() {
    let mut input = String::from("x");
    for _ in 0..254 {
        input.push('y');
    }
    let tokens = lex(&input).unwrap();
    assert_eq!(tokens.len(), 2);
    assert_eq!(tokens[0].text.len(), 255);
}

#[test]
fn test_minus_number_fusion() {
    // The lexer folds a minus into a following digit regardless of what
    // came before, so "3 -2" lexes as two numbers: a documented quirk.
    let tokens = lex("3 -2").unwrap();
    assert_eq!(
        tokens,
        vec![
            Lexeme::new(Numeric, 1, String::from("3")),
            Lexeme::new(Numeric, 1, String::from("-2")),
            Lexeme::new(EOF, 1, String::from("end of file")),
        ]
    );
}
