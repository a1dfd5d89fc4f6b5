use crate::lexer::{Token, TokenView};
use vstd::prelude::*;

verus! {

/// An operation over the nodes of a tree family. `visits` is the relation
/// between a node and what the visitor may return for it; `visit` computes a
/// result in that relation.
pub trait Visitor<Production, T> {
    spec fn visits(&self, production: &Production, result: T) -> bool;

    fn visit(&self, production: &Production) -> (result: T)
        ensures
            self.visits(production, result),
    ;
}

/// A literal value written in the source. A number is kept by its decimal
/// spelling, a string by its contents.
#[derive(Debug)]
pub enum Literal {
    Number(String),
    String(String),
    True,
    False,
    Nil,
}

/// A parenthesised expression.
#[derive(Debug)]
pub struct Grouping {
    pub expression: Box<Expr>,
}

/// A prefix operator applied to an operand.
#[derive(Debug)]
pub struct Unary {
    pub operator: Token,
    pub right: Box<Expr>,
}

/// An infix operator applied to two operands.
#[derive(Debug)]
pub struct Binary {
    pub left: Box<Expr>,
    pub right: Box<Expr>,
    pub operator: Token,
}

/// An expression tree. Every node owns its children.
#[derive(Debug)]
pub enum Expr {
    Literal(Literal),
    Grouping(Grouping),
    Unary(Unary),
    Binary(Binary),
}

/// A statement that evaluates its expression and drops the value.
#[derive(Debug)]
pub struct Expression {
    pub expression: Box<Expr>,
}

/// A statement that evaluates its expression and prints the value.
#[derive(Debug)]
pub struct Print {
    pub expression: Box<Expr>,
}

#[derive(Debug)]
pub enum Stmt {
    Expression(Expression),
    Print(Print),
}

/// What a `Literal` stands for in contracts.
pub enum LiteralView {
    Number(Seq<char>),
    String(Seq<char>),
    True,
    False,
    Nil,
}

/// What an `Expr` stands for in contracts.
pub enum ExprView {
    Literal(LiteralView),
    Grouping(Box<ExprView>),
    Unary { operator: TokenView, right: Box<ExprView> },
    Binary { left: Box<ExprView>, operator: TokenView, right: Box<ExprView> },
}

/// What a `Stmt` stands for in contracts.
pub enum StmtView {
    Expression(ExprView),
    Print(ExprView),
}

impl View for Literal {
    type V = LiteralView;

    open spec fn view(&self) -> LiteralView {
        match self {
            Literal::Number(spelling) => LiteralView::Number(spelling@),
            Literal::String(contents) => LiteralView::String(contents@),
            Literal::True => LiteralView::True,
            Literal::False => LiteralView::False,
            Literal::Nil => LiteralView::Nil,
        }
    }
}

impl Clone for Literal {
    fn clone(&self) -> (r: Self)
        ensures
            r@ == self@,
    {
        match self {
            Literal::Number(spelling) => Literal::Number(spelling.clone()),
            Literal::String(contents) => Literal::String(contents.clone()),
            Literal::True => Literal::True,
            Literal::False => Literal::False,
            Literal::Nil => Literal::Nil,
        }
    }
}

impl Expr {
    /// The tree that this expression stands for.
    pub open spec fn model(self) -> ExprView
        decreases self,
    {
        match self {
            Expr::Literal(literal) => ExprView::Literal(literal@),
            Expr::Grouping(grouping) => ExprView::Grouping(
                Box::new((*grouping.expression).model()),
            ),
            Expr::Unary(unary) => ExprView::Unary {
                operator: unary.operator@,
                right: Box::new((*unary.right).model()),
            },
            Expr::Binary(binary) => ExprView::Binary {
                left: Box::new((*binary.left).model()),
                operator: binary.operator@,
                right: Box::new((*binary.right).model()),
            },
        }
    }

    /// A copy of the whole tree.
    pub fn duplicate(&self) -> (r: Expr)
        ensures
            r@ == self@,
        decreases self,
    {
        match self {
            Expr::Literal(literal) => Expr::Literal(literal.clone()),
            Expr::Grouping(grouping) => Expr::Grouping(
                Grouping { expression: Box::new(grouping.expression.duplicate()) },
            ),
            Expr::Unary(unary) => Expr::Unary(
                Unary {
                    operator: unary.operator.clone(),
                    right: Box::new(unary.right.duplicate()),
                },
            ),
            Expr::Binary(binary) => Expr::Binary(
                Binary {
                    left: Box::new(binary.left.duplicate()),
                    right: Box::new(binary.right.duplicate()),
                    operator: binary.operator.clone(),
                },
            ),
        }
    }

    /// Hands this node to `visitor` and returns what it computes.
    pub fn accept<T>(&self, visitor: &dyn Visitor<Expr, T>) -> (result: T)
        ensures
            visitor.visits(self, result),
    {
        visitor.visit(self)
    }
}

impl View for Expr {
    type V = ExprView;

    open spec fn view(&self) -> ExprView {
        self.model()
    }
}

impl Clone for Expr {
    fn clone(&self) -> (r: Self)
        ensures
            r@ == self@,
    {
        self.duplicate()
    }
}

impl Clone for Grouping {
    fn clone(&self) -> (r: Self)
        ensures
            r.expression@ == self.expression@,
    {
        Grouping { expression: Box::new(self.expression.duplicate()) }
    }
}

impl Clone for Unary {
    fn clone(&self) -> (r: Self)
        ensures
            r.operator@ == self.operator@,
            r.right@ == self.right@,
    {
        Unary { operator: self.operator.clone(), right: Box::new(self.right.duplicate()) }
    }
}

impl Clone for Binary {
    fn clone(&self) -> (r: Self)
        ensures
            r.left@ == self.left@,
            r.operator@ == self.operator@,
            r.right@ == self.right@,
    {
        Binary {
            left: Box::new(self.left.duplicate()),
            right: Box::new(self.right.duplicate()),
            operator: self.operator.clone(),
        }
    }
}

impl View for Stmt {
    type V = StmtView;

    open spec fn view(&self) -> StmtView {
        match self {
            Stmt::Expression(statement) => StmtView::Expression(statement.expression@),
            Stmt::Print(statement) => StmtView::Print(statement.expression@),
        }
    }
}

impl Clone for Expression {
    fn clone(&self) -> (r: Self)
        ensures
            r.expression@ == self.expression@,
    {
        Expression { expression: Box::new(self.expression.duplicate()) }
    }
}

impl Clone for Print {
    fn clone(&self) -> (r: Self)
        ensures
            r.expression@ == self.expression@,
    {
        Print { expression: Box::new(self.expression.duplicate()) }
    }
}

impl Clone for Stmt {
    fn clone(&self) -> (r: Self)
        ensures
            r@ == self@,
    {
        match self {
            Stmt::Expression(statement) => Stmt::Expression(statement.clone()),
            Stmt::Print(statement) => Stmt::Print(statement.clone()),
        }
    }
}

impl Stmt {
    /// Hands this node to `visitor` and returns what it computes.
    pub fn accept<T>(&self, visitor: &dyn Visitor<Stmt, T>) -> (result: T)
        ensures
            visitor.visits(self, result),
    {
        visitor.visit(self)
    }
}

} // verus!
