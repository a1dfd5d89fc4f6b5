use rlox::lexer::{Scanner, Token, TokenType};
use rlox::utils::Diagnostic;

fn scan(source: &str) -> (Vec<Token>, bool, Vec<Diagnostic>) {
    let mut had_err = false;
    let mut diagnostics = Vec::new();
    let mut scanner = Scanner::new(source);
    let tokens = scanner.scan_tokens(&mut had_err, &mut diagnostics).clone();
    (tokens, had_err, diagnostics)
}

fn kinds(tokens: &[Token]) -> Vec<TokenType> {
    tokens.iter().map(|t| t.get_token_type().clone()).collect()
}

fn lexemes(tokens: &[Token]) -> Vec<String> {
    tokens.iter().map(|t| t.get_lexeme()).collect()
}

fn number(spelling: &str) -> TokenType {
    TokenType::Number(String::from(spelling))
}

fn identifier(name: &str) -> TokenType {
    TokenType::Identifier(String::from(name))
}

#[test]
fn one_plus_two_scans_to_five_tokens() {
    let (tokens, had_err, diagnostics) = scan("1 + 2;");
    assert!(!had_err);
    assert!(diagnostics.is_empty());
    assert_eq!(
        kinds(&tokens),
        vec![number("1"), TokenType::Plus, number("2"), TokenType::Semicolon, TokenType::Eof]
    );
    assert_eq!(lexemes(&tokens), vec!["1", "+", "2", ";", ""]);
    assert_eq!(tokens[4].get_line(), 1);
}

#[test]
fn empty_source_scans_to_the_end_marker_alone() {
    let (tokens, had_err, diagnostics) = scan("");
    assert!(!had_err);
    assert!(diagnostics.is_empty());
    assert_eq!(kinds(&tokens), vec![TokenType::Eof]);
    assert_eq!(tokens[0].get_line(), 1);
}

#[test]
fn every_scan_ends_in_exactly_one_end_marker() {
    for source in ["", "1 + 2;", "\"abc", "@#", "// only a comment", "a\nb\n", "print \"x\";"] {
        let (tokens, _, _) = scan(source);
        let ends = tokens.iter().filter(|t| *t.get_token_type() == TokenType::Eof).count();
        assert_eq!(ends, 1, "source {:?}", source);
        assert_eq!(*tokens.last().unwrap().get_token_type(), TokenType::Eof);
    }
}

#[test]
fn unterminated_string_is_reported_and_scan_ends() {
    let (tokens, had_err, diagnostics) = scan("\"abc");
    assert!(had_err);
    assert_eq!(kinds(&tokens), vec![TokenType::Eof]);
    assert_eq!(diagnostics.len(), 1);
    assert_eq!(diagnostics[0].message, "Unterminated string.");
    assert_eq!(diagnostics[0].location, "");
    assert_eq!(diagnostics[0].line, 1);
}

#[test]
fn unterminated_string_is_reported_on_its_last_line() {
    let (tokens, had_err, diagnostics) = scan("1;\n\"ab\ncd\n");
    assert!(had_err);
    assert_eq!(kinds(&tokens), vec![number("1"), TokenType::Semicolon, TokenType::Eof]);
    assert_eq!(diagnostics.len(), 1);
    assert_eq!(diagnostics[0].line, 4);
    assert_eq!(tokens[2].get_line(), 4);
}

#[test]
fn punctuation_scans_one_token_each() {
    let (tokens, had_err, _) = scan("(){},.-+;*/");
    assert!(!had_err);
    assert_eq!(
        kinds(&tokens),
        vec![
            TokenType::LeftParen,
            TokenType::RightParen,
            TokenType::LeftBrace,
            TokenType::RightBrace,
            TokenType::Comma,
            TokenType::Dot,
            TokenType::Minus,
            TokenType::Plus,
            TokenType::Semicolon,
            TokenType::Star,
            TokenType::Slash,
            TokenType::Eof,
        ]
    );
}

#[test]
fn operators_take_a_following_equal_sign() {
    let (tokens, had_err, _) = scan("! != = == < <= > >= !== ===");
    assert!(!had_err);
    assert_eq!(
        kinds(&tokens),
        vec![
            TokenType::Bang,
            TokenType::BangEqual,
            TokenType::Equal,
            TokenType::EqualEqual,
            TokenType::Less,
            TokenType::LessEqual,
            TokenType::Greater,
            TokenType::GreaterEqual,
            TokenType::BangEqual,
            TokenType::Equal,
            TokenType::EqualEqual,
            TokenType::Equal,
            TokenType::Eof,
        ]
    );
    assert_eq!(tokens[1].get_lexeme(), "!=");
    assert_eq!(tokens[7].get_lexeme(), ">=");
}

#[test]
fn comment_runs_to_the_end_of_its_line() {
    let (tokens, had_err, _) = scan("1 // two three\n4 / 5 // end");
    assert!(!had_err);
    assert_eq!(
        kinds(&tokens),
        vec![number("1"), number("4"), TokenType::Slash, number("5"), TokenType::Eof]
    );
    assert_eq!(tokens[0].get_line(), 1);
    assert_eq!(tokens[1].get_line(), 2);
    assert_eq!(tokens[4].get_line(), 2);
}

#[test]
fn whitespace_makes_no_token_and_line_feeds_count_lines() {
    let (tokens, had_err, _) = scan(" \t\r\n\n  x \n");
    assert!(!had_err);
    assert_eq!(kinds(&tokens), vec![identifier("x"), TokenType::Eof]);
    assert_eq!(tokens[0].get_line(), 3);
    assert_eq!(tokens[1].get_line(), 4);
}

#[test]
fn string_token_carries_the_text_between_the_quotes() {
    let (tokens, had_err, _) = scan("\"hello world\"");
    assert!(!had_err);
    assert_eq!(
        kinds(&tokens),
        vec![TokenType::String(String::from("hello world")), TokenType::Eof]
    );
    assert_eq!(tokens[0].get_lexeme(), "\"hello world\"");
}

#[test]
fn empty_string_literal_has_empty_contents() {
    let (tokens, had_err, _) = scan("\"\"");
    assert!(!had_err);
    assert_eq!(kinds(&tokens), vec![TokenType::String(String::new()), TokenType::Eof]);
    assert_eq!(tokens[0].get_lexeme(), "\"\"");
}

#[test]
fn string_over_several_lines_lies_on_its_last_line() {
    let (tokens, had_err, _) = scan("\"a\nb\nc\" x");
    assert!(!had_err);
    assert_eq!(
        kinds(&tokens),
        vec![TokenType::String(String::from("a\nb\nc")), identifier("x"), TokenType::Eof]
    );
    assert_eq!(tokens[0].get_line(), 3);
    assert_eq!(tokens[1].get_line(), 3);
}

#[test]
fn string_may_hold_text_beyond_ascii() {
    let (tokens, had_err, _) = scan("\"héllo → 世界\";");
    assert!(!had_err);
    assert_eq!(
        kinds(&tokens),
        vec![
            TokenType::String(String::from("héllo → 世界")),
            TokenType::Semicolon,
            TokenType::Eof
        ]
    );
    assert_eq!(tokens[0].get_lexeme(), "\"héllo → 世界\"");
}

#[test]
fn numbers_keep_their_spelling() {
    let (tokens, had_err, _) = scan("0 123 45.67 007 1.50");
    assert!(!had_err);
    assert_eq!(
        kinds(&tokens),
        vec![
            number("0"),
            number("123"),
            number("45.67"),
            number("007"),
            number("1.50"),
            TokenType::Eof
        ]
    );
    assert_eq!(lexemes(&tokens), vec!["0", "123", "45.67", "007", "1.50", ""]);
}

#[test]
fn dot_without_a_digit_behind_it_is_not_part_of_the_number() {
    let (tokens, had_err, _) = scan("12.");
    assert!(!had_err);
    assert_eq!(kinds(&tokens), vec![number("12"), TokenType::Dot, TokenType::Eof]);
    let (tokens, had_err, _) = scan("12.x 1.2.3 .5");
    assert!(!had_err);
    assert_eq!(
        kinds(&tokens),
        vec![
            number("12"),
            TokenType::Dot,
            identifier("x"),
            number("1.2"),
            TokenType::Dot,
            number("3"),
            TokenType::Dot,
            number("5"),
            TokenType::Eof
        ]
    );
}

#[test]
fn reserved_words_scan_to_their_own_kinds() {
    let (tokens, had_err, _) = scan(
        "and class else false fun for if nil or print return super this true var while",
    );
    assert!(!had_err);
    assert_eq!(
        kinds(&tokens),
        vec![
            TokenType::And,
            TokenType::Class,
            TokenType::Else,
            TokenType::False,
            TokenType::Fun,
            TokenType::For,
            TokenType::If,
            TokenType::Nil,
            TokenType::Or,
            TokenType::Print,
            TokenType::Return,
            TokenType::Super,
            TokenType::This,
            TokenType::True,
            TokenType::Var,
            TokenType::While,
            TokenType::Eof,
        ]
    );
    assert_eq!(tokens[9].get_lexeme(), "print");
}

#[test]
fn other_words_scan_to_identifiers() {
    let (tokens, had_err, _) = scan("x _y z9 printer And nils a_b_1");
    assert!(!had_err);
    assert_eq!(
        kinds(&tokens),
        vec![
            identifier("x"),
            identifier("_y"),
            identifier("z9"),
            identifier("printer"),
            identifier("And"),
            identifier("nils"),
            identifier("a_b_1"),
            TokenType::Eof
        ]
    );
}

#[test]
fn unexpected_character_is_reported_and_scan_goes_on() {
    let (tokens, had_err, diagnostics) = scan("1 @ 2\n# 3");
    assert!(had_err);
    assert_eq!(kinds(&tokens), vec![number("1"), number("2"), number("3"), TokenType::Eof]);
    assert_eq!(diagnostics.len(), 2);
    assert_eq!(diagnostics[0].message, "unexpected character.");
    assert_eq!(diagnostics[0].location, "");
    assert_eq!(diagnostics[0].line, 1);
    assert_eq!(diagnostics[1].line, 2);
}

#[test]
fn character_beyond_ascii_outside_a_string_is_reported_byte_by_byte() {
    let (tokens, had_err, diagnostics) = scan("é;");
    assert!(had_err);
    assert_eq!(kinds(&tokens), vec![TokenType::Semicolon, TokenType::Eof]);
    assert_eq!(diagnostics.len(), 2);
    assert_eq!(diagnostics[0].message, "unexpected character.");
    assert_eq!(diagnostics[1].message, "unexpected character.");
}

#[test]
fn flag_that_was_raised_stays_raised() {
    let mut had_err = true;
    let mut diagnostics = Vec::new();
    let mut scanner = Scanner::new("1;");
    scanner.scan_tokens(&mut had_err, &mut diagnostics);
    assert!(had_err);
    assert!(diagnostics.is_empty());
}

#[test]
fn diagnostics_are_added_behind_those_already_there() {
    let mut had_err = false;
    let mut diagnostics = vec![Diagnostic {
        line: 9,
        location: String::from("somewhere"),
        message: String::from("earlier"),
    }];
    let mut scanner = Scanner::new("?");
    scanner.scan_tokens(&mut had_err, &mut diagnostics);
    assert!(had_err);
    assert_eq!(diagnostics.len(), 2);
    assert_eq!(diagnostics[0].message, "earlier");
    assert_eq!(diagnostics[1].message, "unexpected character.");
}

#[test]
fn second_scan_adds_only_another_end_marker() {
    let mut had_err = false;
    let mut diagnostics = Vec::new();
    let mut scanner = Scanner::new("1");
    scanner.scan_tokens(&mut had_err, &mut diagnostics);
    let tokens = scanner.scan_tokens(&mut had_err, &mut diagnostics).clone();
    assert_eq!(kinds(&tokens), vec![number("1"), TokenType::Eof, TokenType::Eof]);
}
