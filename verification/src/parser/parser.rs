use crate::lexer::grammar::optional;
use crate::lexer::{Token, TokenType, TokenTypeView, TokenView};
use crate::parser::ast::{
    Binary, Expr, ExprView, Expression, Grouping, Literal, Print, Stmt, StmtView, Unary,
};
use crate::parser::grammar::{
    after, at_end, binary, check, ends, expression, fold, lemma_statement_advances, operand,
    primary, program, remaining, statement, terminated, unary, Level, ParseErrorView, Parsed,
};
use crate::utils::{parse_diagnostic, parse_error, views, Diagnostic, DiagnosticView};
use vstd::prelude::*;
use vstd::string::StringExecFns;

verus! {

/// A syntax error: the message and the token that gave offence.
#[derive(Debug)]
pub enum ParseError {
    Bad { msg: String, token: Token },
}

impl View for ParseError {
    type V = ParseErrorView;

    open spec fn view(&self) -> ParseErrorView {
        match self {
            ParseError::Bad { msg, token } => ParseErrorView::Bad { msg: msg@, token: token@ },
        }
    }
}

/// The result of a rule, as contracts see it.
pub open spec fn parsed(result: Result<Expr, ParseError>) -> Result<ExprView, ParseErrorView> {
    match result {
        Ok(expr) => Ok(expr@),
        Err(error) => Err(error@),
    }
}

/// The diagnostic of a rule's result: that of its error, if it is one.
pub open spec fn complaint(result: Result<ExprView, ParseErrorView>) -> Seq<DiagnosticView> {
    match result {
        Ok(_) => Seq::empty(),
        Err(ParseErrorView::Bad { msg, token }) => seq![parse_diagnostic(token, msg)],
    }
}

/// Builds the tree of a token sequence by recursive descent, one function for
/// each rule of the grammar.
pub struct Parser {
    tokens: Vec<Token>,
    current: usize,
}

/// The kinds with which a statement or a declaration starts.
pub open spec fn starts_statement(kind: TokenTypeView) -> bool {
    kind is Class || kind is Fun || kind is Var || kind is For || kind is If || kind is While
        || kind is Print || kind is Return
}

/// The first position at or after `pos` at which a statement may start anew:
/// behind a semicolon, at a token that starts a statement, or at the end of
/// the input.
pub open spec fn boundary(tokens: Seq<TokenView>, pos: int) -> int
    decreases remaining(tokens, pos),
{
    if at_end(tokens, pos) {
        pos
    } else if pos > 0 && tokens[pos - 1].kind is Semicolon {
        pos
    } else if starts_statement(tokens[pos].kind) {
        pos
    } else {
        boundary(tokens, pos + 1)
    }
}

/// Where the parser stands after it has given up the statement at `pos`:
/// one token on, unless at the end, and from there at the next boundary.
pub open spec fn resumed(tokens: Seq<TokenView>, pos: int) -> int {
    if at_end(tokens, pos) {
        pos
    } else {
        boundary(tokens, pos + 1)
    }
}

impl Parser {
    #[verifier::type_invariant]
    spec fn within(self) -> bool {
        ends(views(self.tokens@)) && self.current < self.tokens.len()
    }

    /// The tokens that this parser reads.
    pub closed spec fn tokens(&self) -> Seq<TokenView> {
        views(self.tokens@)
    }

    /// The token at which this parser stands.
    pub closed spec fn position(&self) -> int {
        self.current as int
    }

    /// The parser has read on as `expected` says, and `result` is what
    /// `expected` holds.
    spec fn did(
        self,
        before: Parser,
        result: Result<ExprView, ParseErrorView>,
        expected: Parsed,
    ) -> bool {
        &&& self.tokens == before.tokens
        &&& self.current == before.current + expected.used
        &&& result == expected.result
    }

    /// A parser at the first token of `tokens`, which must end with the
    /// end-of-input marker.
    pub fn new(tokens: Vec<Token>) -> (parser: Parser)
        requires
            ends(views(tokens@)),
        ensures
            parser.tokens() == views(tokens@),
            parser.position() == 0,
    {
        Parser { tokens, current: 0 }
    }

    /// Parses statements up to the end of the input and returns those that
    /// parsed. Every syntax error is recorded and raises the flag. A statement
    /// with an error in its expression is given up, and the next one starts
    /// where the parser stopped.
    pub fn parse(&mut self, had_err: &mut bool, diagnostics: &mut Vec<Diagnostic>) -> (statements:
        Vec<Stmt>)
        ensures
            final(self).tokens() == old(self).tokens(),
            at_end(final(self).tokens(), final(self).position()),
            ({
                let all = program(old(self).tokens(), old(self).position());
                &&& views(statements@) == all.statements
                &&& views(final(diagnostics)@) == views(old(diagnostics)@) + all.diagnostics
                &&& *final(had_err) == (*old(had_err) || all.diagnostics.len() > 0)
            }),
    {
        let mut statements: Vec<Stmt> = Vec::new();
        let ghost tokens = self.tokens();
        let ghost all = program(tokens, self.position());
        let ghost mut said: Seq<DiagnosticView> = Seq::empty();
        proof {
            use_type_invariant(&*self);
            assert(views(statements@) =~= Seq::<StmtView>::empty());
            assert(views(diagnostics@) =~= views(old(diagnostics)@) + said);
        }
        while !self.is_at_end()
            invariant
                self.tokens() == tokens,
                ends(tokens),
                0 <= self.position() < tokens.len(),
                all.statements == views(statements@) + program(
                    tokens,
                    self.position(),
                ).statements,
                all.diagnostics == said + program(tokens, self.position()).diagnostics,
                views(diagnostics@) == views(old(diagnostics)@) + said,
                *had_err == (*old(had_err) || said.len() > 0),
            decreases remaining(tokens, self.position()),
        {
            let ghost here = self.position();
            let ghost expected = statement(tokens, here);
            let ghost kept = views(statements@);
            proof {
                lemma_statement_advances(tokens, here);
            }
            match self.statement(had_err, diagnostics) {
                Ok(stmt) => {
                    statements.push(stmt);
                    proof {
                        assert(views(statements@) =~= kept + optional(expected.statement));
                    }
                },
                Err(_) => {
                    proof {
                        assert(views(statements@) =~= kept + optional(expected.statement));
                    }
                },
            }
            proof {
                use_type_invariant(&*self);
                let rest = program(tokens, here + expected.used);
                assert(program(tokens, here).statements == optional(expected.statement)
                    + rest.statements);
                assert(program(tokens, here).diagnostics == expected.diagnostics
                    + rest.diagnostics);
                said = said + expected.diagnostics;
                assert(all.statements =~= views(statements@) + rest.statements);
                assert(all.diagnostics =~= said + rest.diagnostics);
                assert(views(diagnostics@) =~= views(old(diagnostics)@) + said);
            }
        }
        proof {
            assert(all.statements =~= views(statements@));
            assert(all.diagnostics =~= said);
        }
        statements
    }

    /// statement -> "print" expression ";" | expression ";"
    fn statement(&mut self, had_err: &mut bool, diagnostics: &mut Vec<Diagnostic>) -> (result:
        Result<Stmt, ParseError>)
        ensures
            final(self).tokens == old(self).tokens,
            ({
                let expected = statement(old(self).tokens(), old(self).position());
                &&& final(self).current == old(self).current + expected.used
                &&& match result {
                    Ok(stmt) => expected.statement == Some(stmt@),
                    Err(_) => expected.statement is None,
                }
                &&& views(final(diagnostics)@) == views(old(diagnostics)@) + expected.diagnostics
                &&& *final(had_err) == (*old(had_err) || expected.diagnostics.len() > 0)
            }),
    {
        let mut match_print: Vec<TokenType> = Vec::new();
        match_print.push(TokenType::Print);
        proof {
            assert(match_print[0]@ == TokenTypeView::Print);
        }
        if self.match_token_type(&match_print) {
            return self.print_statement(had_err, diagnostics);
        }
        self.expression_statement(had_err, diagnostics)
    }

    /// "print" expression ";", behind the `print`.
    fn print_statement(&mut self, had_err: &mut bool, diagnostics: &mut Vec<Diagnostic>) -> (result:
        Result<Stmt, ParseError>)
        ensures
            final(self).tokens == old(self).tokens,
            ({
                let expected = terminated(old(self).tokens(), old(self).position(), true);
                &&& final(self).current == old(self).current + expected.used
                &&& match result {
                    Ok(stmt) => expected.statement == Some(stmt@),
                    Err(_) => expected.statement is None,
                }
                &&& views(final(diagnostics)@) == views(old(diagnostics)@) + expected.diagnostics
                &&& *final(had_err) == (*old(had_err) || expected.diagnostics.len() > 0)
            }),
    {
        let value: Expr = match self.expression(had_err, diagnostics) {
            Ok(value) => value,
            Err(error) => {
                return Err(error);
            },
        };
        let _ = self.consume(
            TokenType::Semicolon,
            String::from_str("Expect ';' after value."),
            had_err,
            diagnostics,
        );
        proof {
            assert(views(diagnostics@) =~= views(old(diagnostics)@) + terminated(
                old(self).tokens(),
                old(self).position(),
                true,
            ).diagnostics);
        }
        Ok(Stmt::Print(Print { expression: Box::new(value) }))
    }

    /// expression ";"
    fn expression_statement(
        &mut self,
        had_err: &mut bool,
        diagnostics: &mut Vec<Diagnostic>,
    ) -> (result: Result<Stmt, ParseError>)
        ensures
            final(self).tokens == old(self).tokens,
            ({
                let expected = terminated(old(self).tokens(), old(self).position(), false);
                &&& final(self).current == old(self).current + expected.used
                &&& match result {
                    Ok(stmt) => expected.statement == Some(stmt@),
                    Err(_) => expected.statement is None,
                }
                &&& views(final(diagnostics)@) == views(old(diagnostics)@) + expected.diagnostics
                &&& *final(had_err) == (*old(had_err) || expected.diagnostics.len() > 0)
            }),
    {
        let expr: Expr = match self.expression(had_err, diagnostics) {
            Ok(expr) => expr,
            Err(error) => {
                return Err(error);
            },
        };
        let _ = self.consume(
            TokenType::Semicolon,
            String::from_str("Expect ';' after expression."),
            had_err,
            diagnostics,
        );
        proof {
            assert(views(diagnostics@) =~= views(old(diagnostics)@) + terminated(
                old(self).tokens(),
                old(self).position(),
                false,
            ).diagnostics);
        }
        Ok(Stmt::Expression(Expression { expression: Box::new(expr) }))
    }

    /// expression -> equality
    fn expression(&mut self, had_err: &mut bool, diagnostics: &mut Vec<Diagnostic>) -> (result:
        Result<Expr, ParseError>)
        ensures
            final(self).did(
                *old(self),
                parsed(result),
                expression(old(self).tokens(), old(self).position()),
            ),
            views(final(diagnostics)@) == views(old(diagnostics)@) + complaint(parsed(result)),
            *final(had_err) == (*old(had_err) || result is Err),
        decreases remaining(old(self).tokens(), old(self).position()), 6nat, 0nat,
    {
        self.equality(had_err, diagnostics)
    }

    /// equality -> comparison (("!=" | "==") comparison)*
    fn equality(&mut self, had_err: &mut bool, diagnostics: &mut Vec<Diagnostic>) -> (result:
        Result<Expr, ParseError>)
        ensures
            final(self).did(
                *old(self),
                parsed(result),
                binary(old(self).tokens(), old(self).position(), Level::Equality),
            ),
            views(final(diagnostics)@) == views(old(diagnostics)@) + complaint(parsed(result)),
            *final(had_err) == (*old(had_err) || result is Err),
        decreases remaining(old(self).tokens(), old(self).position()), 5nat, 3nat,
    {
        let mut types_to_match: Vec<TokenType> = Vec::new();
        types_to_match.push(TokenType::BangEqual);
        types_to_match.push(TokenType::EqualEqual);
        proof {
            assert(types_to_match[0]@ == TokenTypeView::BangEqual);
            assert(types_to_match[1]@ == TokenTypeView::EqualEqual);
            assert forall|kind: TokenTypeView| Level::Equality.has(kind) implies exists|i: int|
                0 <= i < types_to_match.len() && (#[trigger] types_to_match[i])@ == kind by {
                if kind is BangEqual {
                    assert(types_to_match[0]@ == kind);
                }
                if kind is EqualEqual {
                    assert(types_to_match[1]@ == kind);
                }
            }
        }
        self.left_associative(Level::Equality, &types_to_match, had_err, diagnostics)
    }

    /// comparison -> term ((">" | ">=" | "<" | "<=") term)*
    fn comparison(&mut self, had_err: &mut bool, diagnostics: &mut Vec<Diagnostic>) -> (result:
        Result<Expr, ParseError>)
        ensures
            final(self).did(
                *old(self),
                parsed(result),
                binary(old(self).tokens(), old(self).position(), Level::Comparison),
            ),
            views(final(diagnostics)@) == views(old(diagnostics)@) + complaint(parsed(result)),
            *final(had_err) == (*old(had_err) || result is Err),
        decreases remaining(old(self).tokens(), old(self).position()), 4nat, 3nat,
    {
        let mut types_to_match: Vec<TokenType> = Vec::new();
        types_to_match.push(TokenType::Greater);
        types_to_match.push(TokenType::GreaterEqual);
        types_to_match.push(TokenType::Less);
        types_to_match.push(TokenType::LessEqual);
        proof {
            assert(types_to_match[0]@ == TokenTypeView::Greater);
            assert(types_to_match[1]@ == TokenTypeView::GreaterEqual);
            assert(types_to_match[2]@ == TokenTypeView::Less);
            assert(types_to_match[3]@ == TokenTypeView::LessEqual);
            assert forall|kind: TokenTypeView| Level::Comparison.has(kind) implies exists|i: int|
                0 <= i < types_to_match.len() && (#[trigger] types_to_match[i])@ == kind by {
                if kind is Greater {
                    assert(types_to_match[0]@ == kind);
                }
                if kind is GreaterEqual {
                    assert(types_to_match[1]@ == kind);
                }
                if kind is Less {
                    assert(types_to_match[2]@ == kind);
                }
                if kind is LessEqual {
                    assert(types_to_match[3]@ == kind);
                }
            }
        }
        self.left_associative(Level::Comparison, &types_to_match, had_err, diagnostics)
    }

    /// term -> factor (("+" | "-") factor)*
    fn term(&mut self, had_err: &mut bool, diagnostics: &mut Vec<Diagnostic>) -> (result: Result<
        Expr,
        ParseError,
    >)
        ensures
            final(self).did(
                *old(self),
                parsed(result),
                binary(old(self).tokens(), old(self).position(), Level::Term),
            ),
            views(final(diagnostics)@) == views(old(diagnostics)@) + complaint(parsed(result)),
            *final(had_err) == (*old(had_err) || result is Err),
        decreases remaining(old(self).tokens(), old(self).position()), 3nat, 3nat,
    {
        let mut types_to_match: Vec<TokenType> = Vec::new();
        types_to_match.push(TokenType::Plus);
        types_to_match.push(TokenType::Minus);
        proof {
            assert(types_to_match[0]@ == TokenTypeView::Plus);
            assert(types_to_match[1]@ == TokenTypeView::Minus);
            assert forall|kind: TokenTypeView| Level::Term.has(kind) implies exists|i: int|
                0 <= i < types_to_match.len() && (#[trigger] types_to_match[i])@ == kind by {
                if kind is Plus {
                    assert(types_to_match[0]@ == kind);
                }
                if kind is Minus {
                    assert(types_to_match[1]@ == kind);
                }
            }
        }
        self.left_associative(Level::Term, &types_to_match, had_err, diagnostics)
    }

    /// factor -> unary (("*" | "/") unary)*
    fn factor(&mut self, had_err: &mut bool, diagnostics: &mut Vec<Diagnostic>) -> (result: Result<
        Expr,
        ParseError,
    >)
        ensures
            final(self).did(
                *old(self),
                parsed(result),
                binary(old(self).tokens(), old(self).position(), Level::Factor),
            ),
            views(final(diagnostics)@) == views(old(diagnostics)@) + complaint(parsed(result)),
            *final(had_err) == (*old(had_err) || result is Err),
        decreases remaining(old(self).tokens(), old(self).position()), 2nat, 3nat,
    {
        let mut types_to_match: Vec<TokenType> = Vec::new();
        types_to_match.push(TokenType::Star);
        types_to_match.push(TokenType::Slash);
        proof {
            assert(types_to_match[0]@ == TokenTypeView::Star);
            assert(types_to_match[1]@ == TokenTypeView::Slash);
            assert forall|kind: TokenTypeView| Level::Factor.has(kind) implies exists|i: int|
                0 <= i < types_to_match.len() && (#[trigger] types_to_match[i])@ == kind by {
                if kind is Star {
                    assert(types_to_match[0]@ == kind);
                }
                if kind is Slash {
                    assert(types_to_match[1]@ == kind);
                }
            }
        }
        self.left_associative(Level::Factor, &types_to_match, had_err, diagnostics)
    }

    /// An operand of `level`: an expression of the next tighter level.
    fn operand(
        &mut self,
        level: Level,
        had_err: &mut bool,
        diagnostics: &mut Vec<Diagnostic>,
    ) -> (result: Result<Expr, ParseError>)
        ensures
            final(self).did(
                *old(self),
                parsed(result),
                operand(old(self).tokens(), old(self).position(), level),
            ),
            views(final(diagnostics)@) == views(old(diagnostics)@) + complaint(parsed(result)),
            *final(had_err) == (*old(had_err) || result is Err),
        decreases remaining(old(self).tokens(), old(self).position()), level.rank(), 0nat,
    {
        match level {
            Level::Equality => self.comparison(had_err, diagnostics),
            Level::Comparison => self.term(had_err, diagnostics),
            Level::Term => self.factor(had_err, diagnostics),
            Level::Factor => self.unary(had_err, diagnostics),
        }
    }

    /// level -> operand (operator operand)*, with the operators listed in
    /// `types`. The operands are folded from the left as they are read.
    fn left_associative(
        &mut self,
        level: Level,
        types: &Vec<TokenType>,
        had_err: &mut bool,
        diagnostics: &mut Vec<Diagnostic>,
    ) -> (result: Result<Expr, ParseError>)
        requires
            forall|kind: TokenTypeView|
                level.has(kind) <==> exists|i: int|
                    0 <= i < types.len() && (#[trigger] types[i])@ == kind,
        ensures
            final(self).did(
                *old(self),
                parsed(result),
                binary(old(self).tokens(), old(self).position(), level),
            ),
            views(final(diagnostics)@) == views(old(diagnostics)@) + complaint(parsed(result)),
            *final(had_err) == (*old(had_err) || result is Err),
        decreases remaining(old(self).tokens(), old(self).position()), level.rank(), 2nat,
    {
        let ghost tokens = self.tokens();
        let ghost origin = self.position();
        let ghost whole = binary(tokens, origin, level);
        proof {
            use_type_invariant(&*self);
        }
        let mut expr = match self.operand(level, had_err, diagnostics) {
            Ok(expr) => expr,
            Err(error) => {
                return Err(error);
            },
        };
        proof {
            use_type_invariant(&*self);
        }
        let ghost mut at = self.position();
        let mut matched = self.match_token_type(types);
        proof {
            assert(views(diagnostics@) =~= views(old(diagnostics)@));
        }
        while matched
            invariant
                self.tokens == old(self).tokens,
                self.tokens() == tokens,
                ends(tokens),
                origin == old(self).position(),
                origin <= at < tokens.len(),
                self.position() == if matched {
                    at + 1
                } else {
                    at
                },
                matched == (!at_end(tokens, at) && level.has(tokens[at].kind)),
                whole == after((at - origin) as nat, fold(tokens, at, level, expr@)),
                whole == binary(tokens, origin, level),
                views(diagnostics@) == views(old(diagnostics)@),
                *had_err == *old(had_err),
                forall|kind: TokenTypeView|
                    level.has(kind) <==> exists|i: int|
                        0 <= i < types.len() && (#[trigger] types[i])@ == kind,
            decreases
                    remaining(tokens, self.position()) + if matched {
                        1nat
                    } else {
                        0nat
                    },
        {
            let operator: Token = self.previous().clone();
            let ghost left = expr@;
            let right: Expr = match self.operand(level, had_err, diagnostics) {
                Ok(right) => right,
                Err(error) => {
                    return Err(error);
                },
            };
            expr =
            Expr::Binary(Binary { left: Box::new(expr), operator, right: Box::new(right) });
            proof {
                use_type_invariant(&*self);
                assert(expr@ == ExprView::Binary {
                    left: Box::new(left),
                    operator: tokens[at],
                    right: Box::new(right@),
                });
                at = self.position();
            }
            matched = self.match_token_type(types);
            proof {
                assert(views(diagnostics@) =~= views(old(diagnostics)@));
            }
        }
        proof {
            assert(views(diagnostics@) =~= views(old(diagnostics)@) + complaint(
                Ok::<ExprView, ParseErrorView>(expr@),
            ));
        }
        Ok(expr)
    }

    /// unary -> ("!" | "-") unary | primary
    fn unary(&mut self, had_err: &mut bool, diagnostics: &mut Vec<Diagnostic>) -> (result: Result<
        Expr,
        ParseError,
    >)
        ensures
            final(self).did(
                *old(self),
                parsed(result),
                unary(old(self).tokens(), old(self).position()),
            ),
            views(final(diagnostics)@) == views(old(diagnostics)@) + complaint(parsed(result)),
            *final(had_err) == (*old(had_err) || result is Err),
        decreases remaining(old(self).tokens(), old(self).position()), 1nat, 0nat,
    {
        let mut types_to_match: Vec<TokenType> = Vec::new();
        types_to_match.push(TokenType::Bang);
        types_to_match.push(TokenType::Minus);
        proof {
            use_type_invariant(&*self);
            assert(types_to_match[0]@ == TokenTypeView::Bang);
            assert(types_to_match[1]@ == TokenTypeView::Minus);
        }
        if self.match_token_type(&types_to_match) {
            let operator: Token = self.previous().clone();
            let right: Expr = match self.unary(had_err, diagnostics) {
                Ok(right) => right,
                Err(error) => {
                    return Err(error);
                },
            };
            let expr = Expr::Unary(Unary { operator, right: Box::new(right) });
            return Ok(expr);
        }
        self.primary(had_err, diagnostics)
    }

    /// primary -> NUMBER | STRING | "true" | "false" | "nil" | "(" expression ")"
    fn primary(&mut self, had_err: &mut bool, diagnostics: &mut Vec<Diagnostic>) -> (result:
        Result<Expr, ParseError>)
        ensures
            final(self).did(
                *old(self),
                parsed(result),
                primary(old(self).tokens(), old(self).position()),
            ),
            views(final(diagnostics)@) == views(old(diagnostics)@) + complaint(parsed(result)),
            *final(had_err) == (*old(had_err) || result is Err),
        decreases remaining(old(self).tokens(), old(self).position()), 0nat, 0nat,
    {
        proof {
            use_type_invariant(&*self);
        }
        if self.is_at_end() {
            let token = self.peek().clone();
            return self.error(
                token,
                String::from_str("Expected expression!"),
                had_err,
                diagnostics,
            );
        }
        let token: Token = self.advance().clone();
        let expr = match token.get_token_type() {
            TokenType::False => Expr::Literal(Literal::False),
            TokenType::True => Expr::Literal(Literal::True),
            TokenType::Nil => Expr::Literal(Literal::Nil),
            TokenType::String(string) => Expr::Literal(Literal::String(string.clone())),
            TokenType::Number(number) => Expr::Literal(Literal::Number(number.clone())),
            TokenType::LeftParen => {
                let expr: Expr = match self.expression(had_err, diagnostics) {
                    Ok(expr) => expr,
                    Err(error) => {
                        return Err(error);
                    },
                };
                match self.consume(
                    TokenType::RightParen,
                    String::from_str("Expect ')' after expression."),
                    had_err,
                    diagnostics,
                ) {
                    Ok(_) => {},
                    Err(error) => {
                        return Err(error);
                    },
                }
                Expr::Grouping(Grouping { expression: Box::new(expr) })
            },
            _ => {
                return self.error(
                    token,
                    String::from_str("Expected expression!"),
                    had_err,
                    diagnostics,
                );
            },
        };
        proof {
            assert(views(diagnostics@) =~= views(old(diagnostics)@) + complaint(
                Ok::<ExprView, ParseErrorView>(expr@),
            ));
        }
        Ok(expr)
    }

    /// Consumes the next token if it is of `token_type`; reports `message`
    /// at it otherwise.
    fn consume(
        &mut self,
        token_type: TokenType,
        message: String,
        had_err: &mut bool,
        diagnostics: &mut Vec<Diagnostic>,
    ) -> (result: Result<Token, ParseError>)
        ensures
            final(self).tokens == old(self).tokens,
            match result {
                Ok(token) => {
                    &&& check(old(self).tokens(), old(self).position(), token_type@)
                    &&& final(self).current == old(self).current + 1
                    &&& token@ == old(self).tokens()[old(self).position()]
                    &&& views(final(diagnostics)@) == views(old(diagnostics)@)
                    &&& *final(had_err) == *old(had_err)
                },
                Err(error) => {
                    &&& !check(old(self).tokens(), old(self).position(), token_type@)
                    &&& final(self).current == old(self).current
                    &&& error@ == (ParseErrorView::Bad {
                        msg: message@,
                        token: old(self).tokens()[old(self).position()],
                    })
                    &&& views(final(diagnostics)@) == views(old(diagnostics)@).push(
                        parse_diagnostic(old(self).tokens()[old(self).position()], message@),
                    )
                    &&& *final(had_err)
                },
            },
    {
        proof {
            use_type_invariant(&*self);
        }
        if self.check_token_type(&token_type) {
            return Ok(self.advance().clone());
        }
        let token = self.peek().clone();
        self.error::<Token>(token, message, had_err, diagnostics)
    }

    /// Consumes the next token if its kind is among `types`.
    fn match_token_type(&mut self, types: &Vec<TokenType>) -> (matched: bool)
        ensures
            final(self).tokens == old(self).tokens,
            matched == exists|i: int|
                0 <= i < types.len() && check(
                    old(self).tokens(),
                    old(self).position(),
                    (#[trigger] types[i])@,
                ),
            final(self).current == if matched {
                old(self).current + 1
            } else {
                old(self).current as int
            },
    {
        proof {
            use_type_invariant(&*self);
        }
        let mut i: usize = 0;
        while i < types.len()
            invariant
                i <= types.len(),
                *self == *old(self),
                forall|j: int|
                    0 <= j < i ==> !check(self.tokens(), self.position(), (#[trigger] types[j])@),
            decreases types.len() - i,
        {
            if self.check_token_type(&types[i]) {
                self.advance();
                return true;
            }
            i += 1;
        }
        false
    }

    fn check_token_type(&self, token_type: &TokenType) -> (r: bool)
        ensures
            r == check(self.tokens(), self.position(), token_type@),
    {
        proof {
            use_type_invariant(self);
        }
        match self.is_at_end() {
            true => false,
            false => *self.peek().get_token_type() == *token_type,
        }
    }

    /// Moves on by one token, unless at the end, and returns the token now
    /// behind the parser.
    fn advance(&mut self) -> (token: &Token)
        ensures
            final(self).tokens == old(self).tokens,
            final(self).current == if at_end(old(self).tokens(), old(self).position()) {
                old(self).current as int
            } else {
                old(self).current + 1
            },
            token@ == old(self).tokens()[if final(self).current > 0 {
                final(self).current - 1
            } else {
                0
            }],
    {
        proof {
            use_type_invariant(&*self);
        }
        if !self.is_at_end() {
            self.current += 1;
        }
        self.previous()
    }

    fn is_at_end(&self) -> (r: bool)
        ensures
            r == at_end(self.tokens(), self.position()),
    {
        proof {
            use_type_invariant(self);
        }
        *self.peek().get_token_type() == TokenType::Eof
    }

    /// The token at which the parser stands.
    fn peek(&self) -> (token: &Token)
        ensures
            0 <= self.position() < self.tokens().len(),
            token@ == self.tokens()[self.position()],
    {
        proof {
            use_type_invariant(self);
        }
        &self.tokens[self.current]
    }

    /// The token behind the parser; the first token where there is none.
    fn previous(&self) -> (token: &Token)
        ensures
            token@ == self.tokens()[if self.current > 0 {
                self.current - 1
            } else {
                0
            }],
    {
        proof {
            use_type_invariant(self);
        }
        if self.current == 0 {
            return &self.tokens[self.current];
        }
        &self.tokens[self.current - 1]
    }

    /// Reports a syntax error at `token` and returns it as a failure.
    fn error<T>(
        &mut self,
        token: Token,
        msg: String,
        had_err: &mut bool,
        diagnostics: &mut Vec<Diagnostic>,
    ) -> (result: Result<T, ParseError>)
        ensures
            *final(self) == *old(self),
            result matches Err(error) && error@ == (ParseErrorView::Bad {
                msg: msg@,
                token: token@,
            }),
            views(final(diagnostics)@) == views(old(diagnostics)@).push(
                parse_diagnostic(token@, msg@),
            ),
            *final(had_err),
    {
        parse_error(&token, msg.as_str(), had_err, diagnostics);
        Err(ParseError::Bad { msg, token })
    }

    /// Gives up the statement at which the parser stands: skips one token,
    /// then every token up to the next point where a statement may start.
    pub fn synchronize(&mut self)
        ensures
            final(self).tokens() == old(self).tokens(),
            final(self).position() == resumed(old(self).tokens(), old(self).position()),
    {
        let ghost tokens = self.tokens();
        proof {
            use_type_invariant(&*self);
        }
        self.advance();
        proof {
            use_type_invariant(&*self);
        }
        while !self.is_at_end()
            invariant
                self.tokens() == tokens,
                self.tokens == old(self).tokens,
                ends(tokens),
                0 <= self.position() < tokens.len(),
                self.position() > 0 || at_end(tokens, self.position()),
                resumed(tokens, old(self).position()) == boundary(tokens, self.position()),
            decreases remaining(tokens, self.position()),
        {
            if *self.previous().get_token_type() == TokenType::Semicolon {
                return ;
            }
            match self.peek().get_token_type() {
                TokenType::Class
                | TokenType::Fun
                | TokenType::Var
                | TokenType::For
                | TokenType::If
                | TokenType::While
                | TokenType::Print
                | TokenType::Return => {
                    return ;
                },
                _ => {},
            }
            self.advance();
            proof {
                use_type_invariant(&*self);
            }
        }
    }
}

} // verus!
