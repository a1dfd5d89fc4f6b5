use rlox::lexer::{Token, TokenType};
use rlox::utils::{lex_error, parse_error, report, runtime_error, Diagnostic};

#[test]
fn report_records_the_error_and_raises_the_flag() {
    let mut had_err = false;
    let mut diagnostics = Vec::new();
    report(7, "at 'x'", "Something is wrong.", &mut had_err, &mut diagnostics);
    assert!(had_err);
    assert_eq!(
        diagnostics,
        vec![Diagnostic {
            line: 7,
            location: String::from("at 'x'"),
            message: String::from("Something is wrong."),
        }]
    );
}

#[test]
fn lex_error_has_no_location() {
    let mut had_err = false;
    let mut diagnostics = Vec::new();
    lex_error(3, "unexpected character.", &mut had_err, &mut diagnostics);
    assert!(had_err);
    assert_eq!(diagnostics.len(), 1);
    assert_eq!(diagnostics[0].line, 3);
    assert_eq!(diagnostics[0].location, "");
    assert_eq!(diagnostics[0].message, "unexpected character.");
}

#[test]
fn parse_error_at_the_end_marker_is_placed_at_end() {
    let mut had_err = false;
    let mut diagnostics = Vec::new();
    let token = Token::new(TokenType::Eof, String::new(), 4);
    parse_error(&token, "Expect ';' after value.", &mut had_err, &mut diagnostics);
    assert!(had_err);
    assert_eq!(diagnostics.len(), 1);
    assert_eq!(diagnostics[0].line, 4);
    assert_eq!(diagnostics[0].location, " at end");
    assert_eq!(diagnostics[0].message, "Expect ';' after value.");
}

#[test]
fn parse_error_at_another_token_is_placed_at_its_text() {
    let mut had_err = false;
    let mut diagnostics = Vec::new();
    let token = Token::new(TokenType::Plus, String::from("+"), 2);
    parse_error(&token, "Expected expression!", &mut had_err, &mut diagnostics);
    assert!(had_err);
    assert_eq!(diagnostics.len(), 1);
    assert_eq!(diagnostics[0].line, 2);
    assert_eq!(diagnostics[0].location, "at '+'");
    assert_eq!(diagnostics[0].message, "Expected expression!");
}

#[test]
fn runtime_error_has_the_line_of_its_token_and_no_location() {
    let mut had_runtime_err = false;
    let mut diagnostics = Vec::new();
    let token = Token::new(TokenType::Minus, String::from("-"), 12);
    runtime_error(&token, "Operand must be a number.", &mut had_runtime_err, &mut diagnostics);
    assert!(had_runtime_err);
    assert_eq!(diagnostics.len(), 1);
    assert_eq!(diagnostics[0].line, 12);
    assert_eq!(diagnostics[0].location, "");
    assert_eq!(diagnostics[0].message, "Operand must be a number.");
}

#[test]
fn errors_are_recorded_in_the_order_reported() {
    let mut had_err = false;
    let mut diagnostics = Vec::new();
    lex_error(1, "first", &mut had_err, &mut diagnostics);
    lex_error(2, "second", &mut had_err, &mut diagnostics);
    assert_eq!(diagnostics.len(), 2);
    assert_eq!(diagnostics[0].message, "first");
    assert_eq!(diagnostics[1].message, "second");
}

#[test]
fn token_accessors_return_what_was_given() {
    let token = Token::new(TokenType::Identifier(String::from("x")), String::from("x"), 3);
    assert_eq!(*token.get_token_type(), TokenType::Identifier(String::from("x")));
    assert_eq!(token.get_lexeme(), "x");
    assert_eq!(token.get_line(), 3);
}

#[test]
fn token_kinds_are_equal_when_variant_and_text_agree() {
    assert_eq!(TokenType::Plus, TokenType::Plus);
    assert_ne!(TokenType::Plus, TokenType::Minus);
    assert_eq!(TokenType::Number(String::from("1")), TokenType::Number(String::from("1")));
    assert_ne!(TokenType::Number(String::from("1")), TokenType::Number(String::from("2")));
    assert_ne!(TokenType::Number(String::from("1")), TokenType::String(String::from("1")));
    assert_ne!(TokenType::Identifier(String::from("a")), TokenType::String(String::from("a")));
    assert_eq!(TokenType::Eof, TokenType::Eof);
}

#[test]
fn token_as_text_is_its_kind_and_its_lexeme() {
    assert_eq!(Token::new(TokenType::Plus, String::from("+"), 1).to_string(), "Plus +");
    assert_eq!(Token::new(TokenType::Eof, String::new(), 1).to_string(), "Eof ");
    assert_eq!(
        Token::new(TokenType::Identifier(String::from("x1")), String::from("x1"), 1).to_string(),
        "Identifier(\"x1\") x1"
    );
    assert_eq!(
        Token::new(TokenType::String(String::from("a b")), String::from("\"a b\""), 1).to_string(),
        "String(\"a b\") \"a b\""
    );
    assert_eq!(
        Token::new(TokenType::Number(String::from("12.5")), String::from("12.5"), 1).to_string(),
        "Number(12.5) 12.5"
    );
    assert_eq!(TokenType::GreaterEqual.describe(), "GreaterEqual");
    assert_eq!(TokenType::While.describe(), "While");
}
