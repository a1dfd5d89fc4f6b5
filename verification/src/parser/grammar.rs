use crate::lexer::{TokenTypeView, TokenView};
use crate::parser::ast::{ExprView, LiteralView, StmtView};
use crate::utils::{parse_diagnostic, DiagnosticView};
use vstd::prelude::*;

verus! {

// The grammar, as functions from a token sequence and a position in it to
// what the parser builds there and how many tokens it consumes:
//
//   program     -> statement* EOF
//   statement   -> "print" expression ";" | expression ";"
//   expression  -> equality
//   equality    -> comparison (("!=" | "==") comparison)*
//   comparison  -> term ((">" | ">=" | "<" | "<=") term)*
//   term        -> factor (("+" | "-") factor)*
//   factor      -> unary (("*" | "/") unary)*
//   unary       -> ("!" | "-") unary | primary
//   primary     -> NUMBER | STRING | "true" | "false" | "nil"
//                | "(" expression ")"
/// A syntax error: the message and the token that gave offence.
pub enum ParseErrorView {
    Bad { msg: Seq<char>, token: TokenView },
}

/// What a rule makes of the tokens at a position: the expression or the
/// error, and the number of tokens consumed either way.
pub struct Parsed {
    pub result: Result<ExprView, ParseErrorView>,
    pub used: nat,
}

/// The four levels of infix operators, loosest first.
#[derive(Debug, Clone, Copy)]
pub enum Level {
    Equality,
    Comparison,
    Term,
    Factor,
}

impl Level {
    /// The operators of this level.
    pub open spec fn has(self, kind: TokenTypeView) -> bool {
        match self {
            Level::Equality => kind is BangEqual || kind is EqualEqual,
            Level::Comparison => kind is Greater || kind is GreaterEqual || kind is Less
                || kind is LessEqual,
            Level::Term => kind is Plus || kind is Minus,
            Level::Factor => kind is Star || kind is Slash,
        }
    }

    /// How tightly the operands of this level bind: higher is looser.
    pub open spec fn rank(self) -> nat {
        match self {
            Level::Equality => 5,
            Level::Comparison => 4,
            Level::Term => 3,
            Level::Factor => 2,
        }
    }
}

/// True at the end-of-input marker (and beyond the sequence).
pub open spec fn at_end(tokens: Seq<TokenView>, pos: int) -> bool {
    !(0 <= pos < tokens.len()) || tokens[pos].kind is Eof
}

/// True if the token at `pos` is of `kind` and not the end of the input.
pub open spec fn check(tokens: Seq<TokenView>, pos: int, kind: TokenTypeView) -> bool {
    !at_end(tokens, pos) && tokens[pos].kind == kind
}

/// The number of tokens from `pos` to the end of the sequence.
pub open spec fn remaining(tokens: Seq<TokenView>, pos: int) -> nat {
    if pos < tokens.len() {
        (tokens.len() - pos) as nat
    } else {
        0
    }
}

/// The rule fails at `token` with `msg`, `used` tokens on.
pub open spec fn failed(msg: Seq<char>, token: TokenView, used: nat) -> Parsed {
    Parsed { result: Err(ParseErrorView::Bad { msg, token }), used }
}

/// The rule builds `expr` from `used` tokens.
pub open spec fn built(expr: ExprView, used: nat) -> Parsed {
    Parsed { result: Ok(expr), used }
}

/// `parsed`, reached after `before` more tokens.
pub open spec fn after(before: nat, parsed: Parsed) -> Parsed {
    Parsed { result: parsed.result, used: before + parsed.used }
}

/// primary -> NUMBER | STRING | "true" | "false" | "nil" | "(" expression ")"
///
/// A token that starts no expression is consumed and is the error's token;
/// the end of the input is not consumed.
pub open spec fn primary(tokens: Seq<TokenView>, pos: int) -> Parsed
    decreases remaining(tokens, pos), 0nat, 0nat,
{
    if at_end(tokens, pos) {
        failed("Expected expression!"@, tokens[pos], 0)
    } else {
        match tokens[pos].kind {
            TokenTypeView::False => built(ExprView::Literal(LiteralView::False), 1),
            TokenTypeView::True => built(ExprView::Literal(LiteralView::True), 1),
            TokenTypeView::Nil => built(ExprView::Literal(LiteralView::Nil), 1),
            TokenTypeView::String(contents) => built(
                ExprView::Literal(LiteralView::String(contents)),
                1,
            ),
            TokenTypeView::Number(spelling) => built(
                ExprView::Literal(LiteralView::Number(spelling)),
                1,
            ),
            TokenTypeView::LeftParen => {
                let inner = expression(tokens, pos + 1);
                match inner.result {
                    Ok(expr) => {
                        let close = pos + 1 + inner.used;
                        if check(tokens, close, TokenTypeView::RightParen) {
                            built(ExprView::Grouping(Box::new(expr)), inner.used + 2)
                        } else {
                            failed("Expect ')' after expression."@, tokens[close], inner.used + 1)
                        }
                    },
                    Err(_) => after(1, inner),
                }
            },
            _ => failed("Expected expression!"@, tokens[pos], 1),
        }
    }
}

/// unary -> ("!" | "-") unary | primary
pub open spec fn unary(tokens: Seq<TokenView>, pos: int) -> Parsed
    decreases remaining(tokens, pos), 1nat, 0nat,
{
    if check(tokens, pos, TokenTypeView::Bang) || check(tokens, pos, TokenTypeView::Minus) {
        let operand = unary(tokens, pos + 1);
        match operand.result {
            Ok(right) => built(
                ExprView::Unary { operator: tokens[pos], right: Box::new(right) },
                operand.used + 1,
            ),
            Err(_) => after(1, operand),
        }
    } else {
        primary(tokens, pos)
    }
}

/// An operand of `level`: an expression of the next tighter level.
pub open spec fn operand(tokens: Seq<TokenView>, pos: int, level: Level) -> Parsed
    decreases remaining(tokens, pos), level.rank(), 0nat,
{
    match level {
        Level::Equality => binary(tokens, pos, Level::Comparison),
        Level::Comparison => binary(tokens, pos, Level::Term),
        Level::Term => binary(tokens, pos, Level::Factor),
        Level::Factor => unary(tokens, pos),
    }
}

/// What follows the operand `left` of `level`: as long as an operator of the
/// level comes next, it and the operand behind it are folded into `left`, so
/// every level associates to the left.
pub open spec fn fold(tokens: Seq<TokenView>, pos: int, level: Level, left: ExprView) -> Parsed
    decreases remaining(tokens, pos), level.rank(), 1nat,
{
    if !at_end(tokens, pos) && level.has(tokens[pos].kind) {
        let next = operand(tokens, pos + 1, level);
        match next.result {
            Ok(right) => after(
                1 + next.used,
                fold(
                    tokens,
                    pos + 1 + next.used,
                    level,
                    ExprView::Binary {
                        left: Box::new(left),
                        operator: tokens[pos],
                        right: Box::new(right),
                    },
                ),
            ),
            Err(_) => after(1, next),
        }
    } else {
        built(left, 0)
    }
}

/// level -> operand (operator operand)*
pub open spec fn binary(tokens: Seq<TokenView>, pos: int, level: Level) -> Parsed
    decreases remaining(tokens, pos), level.rank(), 2nat,
{
    let first = operand(tokens, pos, level);
    match first.result {
        Ok(left) => after(first.used, fold(tokens, pos + first.used, level, left)),
        Err(_) => first,
    }
}

/// expression -> equality
pub open spec fn expression(tokens: Seq<TokenView>, pos: int) -> Parsed
    decreases remaining(tokens, pos), 6nat, 0nat,
{
    binary(tokens, pos, Level::Equality)
}

/// What the parser makes of one statement: the statement, unless it is given
/// up; the number of tokens consumed; and the errors reported on the way.
pub struct Statement {
    pub statement: Option<StmtView>,
    pub used: nat,
    pub diagnostics: Seq<DiagnosticView>,
}

/// The message for a statement that no semicolon ends.
pub open spec fn unfinished(printing: bool) -> Seq<char> {
    if printing {
        "Expect ';' after value."@
    } else {
        "Expect ';' after expression."@
    }
}

/// expression ";"
///
/// An error in the expression gives the statement up. A missing semicolon is
/// reported and the statement is kept.
pub open spec fn terminated(tokens: Seq<TokenView>, pos: int, printing: bool) -> Statement {
    let value = expression(tokens, pos);
    match value.result {
        Ok(expr) => {
            let end = pos + value.used;
            let statement = if printing {
                StmtView::Print(expr)
            } else {
                StmtView::Expression(expr)
            };
            if check(tokens, end, TokenTypeView::Semicolon) {
                Statement {
                    statement: Some(statement),
                    used: value.used + 1,
                    diagnostics: Seq::empty(),
                }
            } else {
                Statement {
                    statement: Some(statement),
                    used: value.used,
                    diagnostics: seq![parse_diagnostic(tokens[end], unfinished(printing))],
                }
            }
        },
        Err(ParseErrorView::Bad { msg, token }) => Statement {
            statement: None,
            used: value.used,
            diagnostics: seq![parse_diagnostic(token, msg)],
        },
    }
}

/// statement -> "print" expression ";" | expression ";"
pub open spec fn statement(tokens: Seq<TokenView>, pos: int) -> Statement {
    if check(tokens, pos, TokenTypeView::Print) {
        let body = terminated(tokens, pos + 1, true);
        Statement { statement: body.statement, used: body.used + 1, diagnostics: body.diagnostics }
    } else {
        terminated(tokens, pos, false)
    }
}

/// What the parser makes of a program: the statements it keeps and the
/// errors it reports, each in order.
pub struct Program {
    pub statements: Seq<StmtView>,
    pub diagnostics: Seq<DiagnosticView>,
}

/// program -> statement* EOF
///
/// After a statement that was given up, the next one starts where the parser
/// stopped. (A statement always consumes a token, by
/// `lemma_statement_advances`; the test on `used` is there for the
/// termination measure.)
pub open spec fn program(tokens: Seq<TokenView>, pos: int) -> Program
    decreases remaining(tokens, pos),
{
    if at_end(tokens, pos) {
        Program { statements: Seq::empty(), diagnostics: Seq::empty() }
    } else {
        let first = statement(tokens, pos);
        if first.used > 0 {
            let rest = program(tokens, pos + first.used);
            Program {
                statements: crate::lexer::grammar::optional(first.statement) + rest.statements,
                diagnostics: first.diagnostics + rest.diagnostics,
            }
        } else {
            Program { statements: Seq::empty(), diagnostics: Seq::empty() }
        }
    }
}

/// True if the sequence ends with the end-of-input marker.
pub open spec fn ends(tokens: Seq<TokenView>) -> bool {
    tokens.len() > 0 && tokens.last().kind is Eof
}

// No rule consumes the end-of-input marker, and every rule but `fold` consumes
// a token where one stands. The five lemmas below show it rule by rule.
/// `primary` stays before the end and moves on where a token stands.
pub proof fn lemma_primary_advances(tokens: Seq<TokenView>, pos: int)
    requires
        ends(tokens),
        0 <= pos < tokens.len(),
    ensures
        pos + primary(tokens, pos).used < tokens.len(),
        !at_end(tokens, pos) ==> primary(tokens, pos).used >= 1,
    decreases remaining(tokens, pos), 0nat, 0nat,
{
    if !at_end(tokens, pos) {
        if tokens[pos].kind is LeftParen {
            lemma_binary_advances(tokens, pos + 1, Level::Equality);
        }
    }
}

/// `unary` stays before the end and moves on where a token stands.
pub proof fn lemma_unary_advances(tokens: Seq<TokenView>, pos: int)
    requires
        ends(tokens),
        0 <= pos < tokens.len(),
    ensures
        pos + unary(tokens, pos).used < tokens.len(),
        !at_end(tokens, pos) ==> unary(tokens, pos).used >= 1,
    decreases remaining(tokens, pos), 1nat, 0nat,
{
    if check(tokens, pos, TokenTypeView::Bang) || check(tokens, pos, TokenTypeView::Minus) {
        lemma_unary_advances(tokens, pos + 1);
    } else {
        lemma_primary_advances(tokens, pos);
    }
}

/// `operand` stays before the end and moves on where a token stands.
pub proof fn lemma_operand_advances(tokens: Seq<TokenView>, pos: int, level: Level)
    requires
        ends(tokens),
        0 <= pos < tokens.len(),
    ensures
        pos + operand(tokens, pos, level).used < tokens.len(),
        !at_end(tokens, pos) ==> operand(tokens, pos, level).used >= 1,
    decreases remaining(tokens, pos), level.rank(), 0nat,
{
    match level {
        Level::Equality => lemma_binary_advances(tokens, pos, Level::Comparison),
        Level::Comparison => lemma_binary_advances(tokens, pos, Level::Term),
        Level::Term => lemma_binary_advances(tokens, pos, Level::Factor),
        Level::Factor => lemma_unary_advances(tokens, pos),
    }
}

/// `fold` stays before the end.
pub proof fn lemma_fold_advances(tokens: Seq<TokenView>, pos: int, level: Level, left: ExprView)
    requires
        ends(tokens),
        0 <= pos < tokens.len(),
    ensures
        pos + fold(tokens, pos, level, left).used < tokens.len(),
    decreases remaining(tokens, pos), level.rank(), 1nat,
{
    if !at_end(tokens, pos) && level.has(tokens[pos].kind) {
        lemma_operand_advances(tokens, pos + 1, level);
        let next = operand(tokens, pos + 1, level);
        if let Ok(right) = next.result {
            lemma_fold_advances(
                tokens,
                pos + 1 + next.used,
                level,
                ExprView::Binary {
                    left: Box::new(left),
                    operator: tokens[pos],
                    right: Box::new(right),
                },
            );
        }
    }
}

/// `binary` stays before the end and moves on where a token stands.
pub proof fn lemma_binary_advances(tokens: Seq<TokenView>, pos: int, level: Level)
    requires
        ends(tokens),
        0 <= pos < tokens.len(),
    ensures
        pos + binary(tokens, pos, level).used < tokens.len(),
        !at_end(tokens, pos) ==> binary(tokens, pos, level).used >= 1,
    decreases remaining(tokens, pos), level.rank(), 2nat,
{
    lemma_operand_advances(tokens, pos, level);
    let first = operand(tokens, pos, level);
    if let Ok(left) = first.result {
        lemma_fold_advances(tokens, pos + first.used, level, left);
    }
}

/// A statement consumes at least one token and never the end-of-input
/// marker, so the parser always moves on and always comes to the end.
pub proof fn lemma_statement_advances(tokens: Seq<TokenView>, pos: int)
    requires
        ends(tokens),
        0 <= pos < tokens.len(),
        !at_end(tokens, pos),
    ensures
        1 <= statement(tokens, pos).used,
        pos + statement(tokens, pos).used < tokens.len(),
{
    if check(tokens, pos, TokenTypeView::Print) {
        lemma_binary_advances(tokens, pos + 1, Level::Equality);
    } else {
        lemma_binary_advances(tokens, pos, Level::Equality);
    }
}

} // verus!
