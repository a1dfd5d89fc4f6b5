use rlox::lexer::{Token, TokenType};
use rlox::parser::ast::{Binary, Expr, Grouping, Literal, Unary};
use rlox::parser::{AstPrinter, Visitor};

fn number(spelling: &str) -> Box<Expr> {
    Box::new(Expr::Literal(Literal::Number(String::from(spelling))))
}

#[test]
fn product_of_a_negation_and_a_group_is_fully_parenthesized() {
    let expr = Expr::Binary(Binary {
        left: Box::new(Expr::Unary(Unary {
            operator: Token::new(TokenType::Minus, String::from("-"), 1),
            right: number("123"),
        })),
        operator: Token::new(TokenType::Star, String::from("*"), 1),
        right: Box::new(Expr::Grouping(Grouping { expression: number("45.67") })),
    });
    assert_eq!(AstPrinter.print(&expr), "(* (- 123) (group 45.67))");
}

#[test]
fn sum_is_rendered_with_its_operator_first() {
    let expr = Expr::Binary(Binary {
        left: number("1"),
        operator: Token::new(TokenType::Plus, String::from("+"), 1),
        right: number("2"),
    });
    assert_eq!(AstPrinter.print(&expr), "(+ 1 2)");
}

#[test]
fn literals_are_rendered_bare() {
    assert_eq!(AstPrinter.print(&Expr::Literal(Literal::Nil)), "nil");
    assert_eq!(AstPrinter.print(&Expr::Literal(Literal::True)), "true");
    assert_eq!(AstPrinter.print(&Expr::Literal(Literal::False)), "false");
    assert_eq!(AstPrinter.print(&Expr::Literal(Literal::String(String::from("a b")))), "a b");
    assert_eq!(AstPrinter.print(&number("1.50")), "1.50");
}

#[test]
fn every_operation_starts_and_ends_with_a_parenthesis() {
    let unary = Expr::Unary(Unary {
        operator: Token::new(TokenType::Bang, String::from("!"), 1),
        right: Box::new(Expr::Literal(Literal::True)),
    });
    let grouping = Expr::Grouping(Grouping { expression: number("1") });
    let binary = Expr::Binary(Binary {
        left: number("1"),
        operator: Token::new(TokenType::Less, String::from("<"), 1),
        right: number("2"),
    });
    for (expr, text) in [(unary, "(! true)"), (grouping, "(group 1)"), (binary, "(< 1 2)")] {
        let rendered = AstPrinter.print(&expr);
        assert_eq!(rendered, text);
        assert!(rendered.starts_with('('));
        assert!(rendered.ends_with(')'));
    }
}

#[test]
fn parenthesize_puts_a_space_before_each_operand() {
    let one = Expr::Literal(Literal::Number(String::from("1")));
    let two = Expr::Literal(Literal::Nil);
    let printer = AstPrinter;
    assert_eq!(printer.parenthesize(String::from("f"), vec![&one, &two]), "(f 1 nil)");
    assert_eq!(printer.parenthesize(String::from("f"), vec![]), "(f)");
}

#[test]
fn accept_hands_the_node_to_the_visitor() {
    let expr = Expr::Grouping(Grouping { expression: number("7") });
    let printer = AstPrinter;
    assert_eq!(expr.accept::<String>(&printer), "(group 7)");
    assert_eq!(printer.visit(&expr), "(group 7)");
}

#[test]
fn duplicate_copies_the_whole_tree() {
    let expr = Expr::Binary(Binary {
        left: number("1"),
        operator: Token::new(TokenType::Plus, String::from("+"), 1),
        right: Box::new(Expr::Grouping(Grouping { expression: number("2") })),
    });
    let copy = expr.duplicate();
    assert_eq!(AstPrinter.print(&copy), AstPrinter.print(&expr));
    assert_eq!(AstPrinter.print(&expr.clone()), "(+ 1 (group 2))");
}
