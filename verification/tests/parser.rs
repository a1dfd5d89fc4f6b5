use rlox::lexer::{Scanner, Token, TokenType};
use rlox::parser::ast::{Expr, Literal, Stmt};
use rlox::parser::{AstPrinter, Parser};
use rlox::utils::Diagnostic;

fn tokens_of(source: &str) -> Vec<Token> {
    let mut had_err = false;
    let mut diagnostics = Vec::new();
    let mut scanner = Scanner::new(source);
    let tokens = scanner.scan_tokens(&mut had_err, &mut diagnostics).clone();
    assert!(!had_err, "source {:?} does not scan", source);
    tokens
}

fn parse(source: &str) -> (Vec<Stmt>, bool, Vec<Diagnostic>) {
    let mut had_err = false;
    let mut diagnostics = Vec::new();
    let mut parser = Parser::new(tokens_of(source));
    let statements = parser.parse(&mut had_err, &mut diagnostics);
    (statements, had_err, diagnostics)
}

fn expression_of(statement: &Stmt) -> &Expr {
    match statement {
        Stmt::Expression(statement) => &statement.expression,
        Stmt::Print(statement) => &statement.expression,
    }
}

fn shape(source: &str) -> String {
    let (statements, had_err, diagnostics) = parse(source);
    assert!(!had_err, "source {:?}: {:?}", source, diagnostics);
    assert_eq!(statements.len(), 1);
    AstPrinter.print(expression_of(&statements[0]))
}

#[test]
fn print_one_plus_two_parses_to_a_print_of_a_sum() {
    let (statements, had_err, diagnostics) = parse("print 1 + 2;");
    assert!(!had_err);
    assert!(diagnostics.is_empty());
    assert_eq!(statements.len(), 1);
    let print = match &statements[0] {
        Stmt::Print(print) => print,
        other => panic!("not a print statement: {:?}", other),
    };
    let binary = match &*print.expression {
        Expr::Binary(binary) => binary,
        other => panic!("not a binary expression: {:?}", other),
    };
    assert_eq!(*binary.operator.get_token_type(), TokenType::Plus);
    assert_eq!(binary.operator.get_lexeme(), "+");
    assert!(matches!(&*binary.left, Expr::Literal(Literal::Number(n)) if n == "1"));
    assert!(matches!(&*binary.right, Expr::Literal(Literal::Number(n)) if n == "2"));
}

#[test]
fn statement_without_print_is_an_expression_statement() {
    let (statements, had_err, _) = parse("1 + 2;");
    assert!(!had_err);
    assert_eq!(statements.len(), 1);
    assert!(matches!(&statements[0], Stmt::Expression(_)));
}

#[test]
fn missing_semicolon_is_reported_at_the_end_and_the_statement_kept() {
    let (statements, had_err, diagnostics) = parse("print 1");
    assert!(had_err);
    assert_eq!(diagnostics.len(), 1);
    assert_eq!(diagnostics[0].message, "Expect ';' after value.");
    assert_eq!(diagnostics[0].location, " at end");
    assert_eq!(diagnostics[0].line, 1);
    assert_eq!(statements.len(), 1);
    assert!(matches!(&statements[0], Stmt::Print(_)));
    assert_eq!(AstPrinter.print(expression_of(&statements[0])), "1");
}

#[test]
fn missing_semicolon_after_an_expression_has_its_own_message() {
    let (statements, had_err, diagnostics) = parse("1 + 2\nprint 3;");
    assert!(had_err);
    assert_eq!(diagnostics.len(), 1);
    assert_eq!(diagnostics[0].message, "Expect ';' after expression.");
    assert_eq!(diagnostics[0].location, "at 'print'");
    assert_eq!(diagnostics[0].line, 2);
    assert_eq!(statements.len(), 2);
    assert!(matches!(&statements[0], Stmt::Expression(_)));
    assert!(matches!(&statements[1], Stmt::Print(_)));
}

#[test]
fn factors_bind_tighter_than_terms() {
    assert_eq!(shape("1 + 2 * 3;"), "(+ 1 (* 2 3))");
    assert_eq!(shape("1 * 2 + 3;"), "(+ (* 1 2) 3)");
    assert_eq!(shape("1 - 2 / 3;"), "(- 1 (/ 2 3))");
}

#[test]
fn terms_bind_tighter_than_comparisons_and_those_than_equalities() {
    assert_eq!(shape("1 + 2 < 3 + 4;"), "(< (+ 1 2) (+ 3 4))");
    assert_eq!(shape("1 < 2 == 3 >= 4;"), "(== (< 1 2) (>= 3 4))");
    assert_eq!(shape("1 != 2 > 3;"), "(!= 1 (> 2 3))");
    assert_eq!(shape("1 <= 2;"), "(<= 1 2)");
}

#[test]
fn every_infix_level_associates_to_the_left() {
    assert_eq!(shape("1 - 2 - 3;"), "(- (- 1 2) 3)");
    assert_eq!(shape("1 / 2 * 3;"), "(* (/ 1 2) 3)");
    assert_eq!(shape("1 < 2 < 3;"), "(< (< 1 2) 3)");
    assert_eq!(shape("1 == 2 != 3;"), "(!= (== 1 2) 3)");
    assert_eq!(shape("1 + 2 + 3 + 4;"), "(+ (+ (+ 1 2) 3) 4)");
}

#[test]
fn prefix_operators_nest_to_the_right() {
    assert_eq!(shape("-1;"), "(- 1)");
    assert_eq!(shape("!!true;"), "(! (! true))");
    assert_eq!(shape("-!-1;"), "(- (! (- 1)))");
    assert_eq!(shape("-1 - -2;"), "(- (- 1) (- 2))");
    assert_eq!(shape("!1 == 2;"), "(== (! 1) 2)");
}

#[test]
fn parentheses_group() {
    assert_eq!(shape("(1 + 2) * 3;"), "(* (group (+ 1 2)) 3)");
    assert_eq!(shape("((1));"), "(group (group 1))");
    assert_eq!(shape("-123 * (45.67);"), "(* (- 123) (group 45.67))");
}

#[test]
fn literals_parse_to_themselves() {
    assert_eq!(shape("true;"), "true");
    assert_eq!(shape("false;"), "false");
    assert_eq!(shape("nil;"), "nil");
    assert_eq!(shape("\"text\";"), "text");
    assert_eq!(shape("12.5;"), "12.5");
}

#[test]
fn unary_node_keeps_its_operator_token() {
    let (statements, _, _) = parse("\n\n-1;");
    let unary = match expression_of(&statements[0]) {
        Expr::Unary(unary) => unary,
        other => panic!("not a unary expression: {:?}", other),
    };
    assert_eq!(*unary.operator.get_token_type(), TokenType::Minus);
    assert_eq!(unary.operator.get_line(), 3);
}

#[test]
fn missing_closing_parenthesis_is_reported_at_the_token_found() {
    let (statements, had_err, diagnostics) = parse("(1 + 2;");
    assert!(had_err);
    assert_eq!(diagnostics[0].message, "Expect ')' after expression.");
    assert_eq!(diagnostics[0].location, "at ';'");
    // The semicolon was not consumed: the next statement starts at it.
    assert_eq!(diagnostics.len(), 2);
    assert_eq!(diagnostics[1].message, "Expected expression!");
    assert_eq!(diagnostics[1].location, "at ';'");
    assert!(statements.is_empty());
}

#[test]
fn missing_closing_parenthesis_at_the_end_is_reported_at_end() {
    let (statements, had_err, diagnostics) = parse("(1");
    assert!(had_err);
    assert_eq!(diagnostics.len(), 1);
    assert_eq!(diagnostics[0].message, "Expect ')' after expression.");
    assert_eq!(diagnostics[0].location, " at end");
    assert!(statements.is_empty());
}

#[test]
fn opening_parenthesis_alone_is_an_error_and_no_crash() {
    let (statements, had_err, diagnostics) = parse("(");
    assert!(had_err);
    assert_eq!(diagnostics.len(), 1);
    assert_eq!(diagnostics[0].message, "Expected expression!");
    assert_eq!(diagnostics[0].location, " at end");
    assert!(statements.is_empty());
}

#[test]
fn token_that_starts_no_expression_is_reported_and_consumed() {
    let (statements, had_err, diagnostics) = parse("+ 1;");
    assert!(had_err);
    assert_eq!(diagnostics.len(), 1);
    assert_eq!(diagnostics[0].message, "Expected expression!");
    assert_eq!(diagnostics[0].location, "at '+'");
    assert_eq!(statements.len(), 1);
    assert_eq!(AstPrinter.print(expression_of(&statements[0])), "1");
}

#[test]
fn operator_without_right_operand_is_reported_at_end() {
    let (statements, had_err, diagnostics) = parse("1 +");
    assert!(had_err);
    assert_eq!(diagnostics.len(), 1);
    assert_eq!(diagnostics[0].message, "Expected expression!");
    assert_eq!(diagnostics[0].location, " at end");
    assert!(statements.is_empty());
}

#[test]
fn print_without_expression_is_reported() {
    let (statements, had_err, diagnostics) = parse("print;");
    assert!(had_err);
    assert_eq!(diagnostics.len(), 1);
    assert_eq!(diagnostics[0].message, "Expected expression!");
    assert_eq!(diagnostics[0].location, "at ';'");
    assert!(statements.is_empty());
}

#[test]
fn statement_with_an_error_is_given_up_and_later_ones_are_kept() {
    let (statements, had_err, diagnostics) = parse("print (1;\nprint 2;\nprint 3;");
    assert!(had_err);
    // The parser goes on at the token at which it stopped, the semicolon,
    // which starts no expression either.
    assert_eq!(diagnostics.len(), 2);
    assert_eq!(diagnostics[0].message, "Expect ')' after expression.");
    assert_eq!(diagnostics[0].line, 1);
    assert_eq!(diagnostics[1].message, "Expected expression!");
    assert_eq!(diagnostics[1].line, 1);
    assert_eq!(statements.len(), 2);
    assert_eq!(AstPrinter.print(expression_of(&statements[0])), "2");
    assert_eq!(AstPrinter.print(expression_of(&statements[1])), "3");
}

#[test]
fn several_errors_are_all_reported_in_order() {
    let (statements, had_err, diagnostics) = parse("print 1\nprint 2\nprint 3;");
    assert!(had_err);
    assert_eq!(diagnostics.len(), 2);
    assert_eq!(diagnostics[0].location, "at 'print'");
    assert_eq!(diagnostics[0].line, 2);
    assert_eq!(diagnostics[1].location, "at 'print'");
    assert_eq!(diagnostics[1].line, 3);
    assert_eq!(statements.len(), 3);
}

#[test]
fn empty_program_parses_to_no_statement() {
    let (statements, had_err, diagnostics) = parse("");
    assert!(!had_err);
    assert!(diagnostics.is_empty());
    assert!(statements.is_empty());
}

#[test]
fn parser_stops_at_the_first_end_marker() {
    let tokens = vec![
        Token::new(TokenType::Number(String::from("1")), String::from("1"), 1),
        Token::new(TokenType::Semicolon, String::from(";"), 1),
        Token::new(TokenType::Eof, String::new(), 1),
        Token::new(TokenType::Number(String::from("2")), String::from("2"), 1),
        Token::new(TokenType::Eof, String::new(), 1),
    ];
    let mut had_err = false;
    let mut diagnostics = Vec::new();
    let mut parser = Parser::new(tokens);
    let statements = parser.parse(&mut had_err, &mut diagnostics);
    assert!(!had_err);
    assert_eq!(statements.len(), 1);
}

#[test]
fn synchronize_skips_to_behind_the_next_semicolon() {
    let mut had_err = false;
    let mut diagnostics = Vec::new();
    let mut parser = Parser::new(tokens_of("1 2 3; 4;"));
    parser.synchronize();
    let statements = parser.parse(&mut had_err, &mut diagnostics);
    assert!(!had_err);
    assert_eq!(statements.len(), 1);
    assert_eq!(AstPrinter.print(expression_of(&statements[0])), "4");
}

#[test]
fn synchronize_stops_at_a_token_that_starts_a_statement() {
    let mut had_err = false;
    let mut diagnostics = Vec::new();
    let mut parser = Parser::new(tokens_of("1 2 print 3;"));
    parser.synchronize();
    let statements = parser.parse(&mut had_err, &mut diagnostics);
    assert!(!had_err);
    assert_eq!(statements.len(), 1);
    assert!(matches!(&statements[0], Stmt::Print(_)));
}

#[test]
fn synchronize_skips_at_least_one_token() {
    let mut had_err = false;
    let mut diagnostics = Vec::new();
    let mut parser = Parser::new(tokens_of("print 1; print 2;"));
    parser.synchronize();
    let statements = parser.parse(&mut had_err, &mut diagnostics);
    assert!(!had_err);
    assert_eq!(statements.len(), 1);
    assert_eq!(AstPrinter.print(expression_of(&statements[0])), "2");
}

#[test]
fn synchronize_at_the_end_stays_there() {
    let mut had_err = false;
    let mut diagnostics = Vec::new();
    let mut parser = Parser::new(tokens_of(""));
    parser.synchronize();
    let statements = parser.parse(&mut had_err, &mut diagnostics);
    assert!(!had_err);
    assert!(statements.is_empty());
}
