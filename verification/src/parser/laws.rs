use crate::lexer::{TokenTypeView, TokenView};
use crate::parser::ast::{ExprView, StmtView};
use crate::parser::grammar::{
    at_end, binary, check, expression, fold, operand, primary, program, remaining, statement,
    terminated, unary, Level,
};
use vstd::prelude::*;

verus! {

/// The operators that stand before their operand.
pub open spec fn is_prefix_operator(kind: TokenTypeView) -> bool {
    kind is Bang || kind is Minus
}

/// The operators that stand between their operands.
pub open spec fn is_infix_operator(kind: TokenTypeView) -> bool {
    Level::Equality.has(kind) || Level::Comparison.has(kind) || Level::Term.has(kind)
        || Level::Factor.has(kind)
}

/// True if every operation in the tree carries an operator of its own sort:
/// a unary node a prefix operator, a binary node an infix operator.
pub open spec fn operators_fit(expr: ExprView) -> bool
    decreases expr,
{
    match expr {
        ExprView::Literal(_) => true,
        ExprView::Grouping(inner) => operators_fit(*inner),
        ExprView::Unary { operator, right } => is_prefix_operator(operator.kind) && operators_fit(
            *right,
        ),
        ExprView::Binary { left, operator, right } => is_infix_operator(operator.kind)
            && operators_fit(*left) && operators_fit(*right),
    }
}

/// The same of the expression of a statement.
pub open spec fn statement_fits(statement: StmtView) -> bool {
    match statement {
        StmtView::Expression(expr) => operators_fit(expr),
        StmtView::Print(expr) => operators_fit(expr),
    }
}

/// What `primary` builds fits.
pub proof fn lemma_primary_fits(tokens: Seq<TokenView>, pos: int)
    ensures
        primary(tokens, pos).result matches Ok(expr) ==> operators_fit(expr),
    decreases remaining(tokens, pos), 0nat, 0nat,
{
    if !at_end(tokens, pos) && tokens[pos].kind is LeftParen {
        lemma_binary_fits(tokens, pos + 1, Level::Equality);
    }
}

/// What `unary` builds fits.
pub proof fn lemma_unary_fits(tokens: Seq<TokenView>, pos: int)
    ensures
        unary(tokens, pos).result matches Ok(expr) ==> operators_fit(expr),
    decreases remaining(tokens, pos), 1nat, 0nat,
{
    if check(tokens, pos, TokenTypeView::Bang) || check(tokens, pos, TokenTypeView::Minus) {
        lemma_unary_fits(tokens, pos + 1);
    } else {
        lemma_primary_fits(tokens, pos);
    }
}

/// What `operand` builds fits.
pub proof fn lemma_operand_fits(tokens: Seq<TokenView>, pos: int, level: Level)
    ensures
        operand(tokens, pos, level).result matches Ok(expr) ==> operators_fit(expr),
    decreases remaining(tokens, pos), level.rank(), 0nat,
{
    match level {
        Level::Equality => lemma_binary_fits(tokens, pos, Level::Comparison),
        Level::Comparison => lemma_binary_fits(tokens, pos, Level::Term),
        Level::Term => lemma_binary_fits(tokens, pos, Level::Factor),
        Level::Factor => lemma_unary_fits(tokens, pos),
    }
}

/// What `fold` builds around a tree that fits, fits.
pub proof fn lemma_fold_fits(tokens: Seq<TokenView>, pos: int, level: Level, left: ExprView)
    requires
        operators_fit(left),
    ensures
        fold(tokens, pos, level, left).result matches Ok(expr) ==> operators_fit(expr),
    decreases remaining(tokens, pos), level.rank(), 1nat,
{
    if !at_end(tokens, pos) && level.has(tokens[pos].kind) {
        lemma_operand_fits(tokens, pos + 1, level);
        let next = operand(tokens, pos + 1, level);
        if let Ok(right) = next.result {
            lemma_fold_fits(
                tokens,
                pos + 1 + next.used,
                level,
                ExprView::Binary {
                    left: Box::new(left),
                    operator: tokens[pos],
                    right: Box::new(right),
                },
            );
        }
    }
}

/// What `binary` builds fits.
pub proof fn lemma_binary_fits(tokens: Seq<TokenView>, pos: int, level: Level)
    ensures
        binary(tokens, pos, level).result matches Ok(expr) ==> operators_fit(expr),
    decreases remaining(tokens, pos), level.rank(), 2nat,
{
    lemma_operand_fits(tokens, pos, level);
    let first = operand(tokens, pos, level);
    if let Ok(left) = first.result {
        lemma_fold_fits(tokens, pos + first.used, level, left);
    }
}

/// Every operation that the parser builds carries an operator of the rule
/// that built it.
pub proof fn lemma_expression_fits(tokens: Seq<TokenView>, pos: int)
    ensures
        expression(tokens, pos).result matches Ok(expr) ==> operators_fit(expr),
{
    lemma_binary_fits(tokens, pos, Level::Equality);
}

/// The same of every statement of a program.
pub proof fn lemma_program_fits(tokens: Seq<TokenView>, pos: int)
    ensures
        forall|i: int|
            0 <= i < program(tokens, pos).statements.len() ==> statement_fits(
                #[trigger] program(tokens, pos).statements[i],
            ),
    decreases remaining(tokens, pos),
{
    if !at_end(tokens, pos) {
        let first = statement(tokens, pos);
        if first.used > 0 {
            lemma_program_fits(tokens, pos + first.used);
            if check(tokens, pos, TokenTypeView::Print) {
                lemma_expression_fits(tokens, pos + 1);
            } else {
                lemma_expression_fits(tokens, pos);
            }
            let rest = program(tokens, pos + first.used);
            let all = program(tokens, pos);
            let head = crate::lexer::grammar::optional(first.statement);
            assert(all.statements == head + rest.statements);
            assert forall|i: int| 0 <= i < all.statements.len() implies statement_fits(
                #[trigger] all.statements[i],
            ) by {
                if i >= head.len() {
                    assert(all.statements[i] == rest.statements[i - head.len()]);
                }
            }
        }
    }
}

} // verus!
