//! A tree-walking interpreter for a small dynamically typed scripting
//! language: a scanner from source text to tokens, a recursive-descent parser
//! from tokens to statements, and an evaluator of those statements.
//!
//! The library does no input or output. Errors are handed back as
//! [`utils::Diagnostic`]s beside the flags they raise, and the values that a
//! program prints are handed back in the order in which it prints them.
//! Numbers are single-precision floating-point values, kept as their bits; the
//! program that embeds the library supplies the calculator that reads and
//! combines them.
pub mod interpreter;
pub mod lexer;
pub mod parser;
pub mod utils;

use crate::interpreter::interpreter::{interprets, reported};
use crate::interpreter::{Calculation, Interpreter, RuntimeErrorView, Value};
use crate::lexer::grammar::{errors_of, tokens_of};
use crate::lexer::{Scanner, Token};
use crate::parser::grammar::program;
use crate::parser::Parser;
use crate::utils::{views, Diagnostic};
use vstd::pervasive::cloned;
use vstd::prelude::*;
use vstd::utf8::encode_utf8;

verus! {

/// Runs a program from source text to output: scans it, parses the tokens,
/// and, unless `had_err` is raised by then, interprets the statements.
/// Returns the values printed. Lexical and syntax errors raise `had_err`, a
/// runtime error raises `had_runtime_err`, and each is added to
/// `diagnostics`.
pub fn run<F: Fn(Calculation) -> u32>(
    source: String,
    had_err: &mut bool,
    had_runtime_err: &mut bool,
    diagnostics: &mut Vec<Diagnostic>,
    calculator: F,
) -> (output: Vec<Value>)
    requires
        encode_utf8(source@).len() < u32::MAX,
        forall|work: Calculation| call_requires(calculator, (work,)),
    ensures
        ({
            let bytes = encode_utf8(source@);
            let parsed = program(tokens_of(bytes), 0);
            let stopped = *old(had_err) || errors_of(bytes).len() > 0 || parsed.diagnostics.len()
                > 0;
            &&& *final(had_err) == stopped
            &&& if stopped {
                &&& output@.len() == 0
                &&& *final(had_runtime_err) == *old(had_runtime_err)
                &&& views(final(diagnostics)@) == views(old(diagnostics)@) + errors_of(bytes)
                    + parsed.diagnostics
            } else {
                exists|failure: Option<RuntimeErrorView>| #[trigger]
                    interprets(calculator, parsed.statements, views(output@), failure)
                        && *final(had_runtime_err) == (*old(had_runtime_err) || failure is Some)
                        && views(final(diagnostics)@) == views(old(diagnostics)@) + reported(
                        failure,
                    )
            }
        }),
{
    let ghost bytes = encode_utf8(source@);
    let mut scanner: Scanner = Scanner::new(source.as_str());
    let tokens: &Vec<Token> = scanner.scan_tokens(had_err, diagnostics);
    let owned: Vec<Token> = tokens.clone();
    proof {
        assert forall|i: int| 0 <= i < tokens.len() implies (#[trigger] owned[i])@ == tokens[i]@ by {
            assert(cloned::<Token>(tokens[i], owned[i]));
        }
        assert(views(owned@) =~= views(tokens@));
        assert(views(tokens@) =~= tokens_of(bytes));
    }
    let mut parser: Parser = Parser::new(owned);
    let statements = parser.parse(had_err, diagnostics);
    proof {
        assert(views(diagnostics@) =~= views(old(diagnostics)@) + errors_of(bytes) + program(
            tokens_of(bytes),
            0,
        ).diagnostics);
    }
    if *had_err {
        return Vec::new();
    }
    let interpreter = Interpreter::new(calculator);
    let ghost before = views(diagnostics@);
    let output = interpreter.interpret(statements, had_runtime_err, diagnostics);
    proof {
        assert(before =~= views(old(diagnostics)@));
    }
    output
}

} // verus!
