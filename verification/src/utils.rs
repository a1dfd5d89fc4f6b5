use crate::lexer::{Token, TokenType, TokenView};
use vstd::prelude::*;
use vstd::std_specs::cmp::PartialEqSpecImpl;
use vstd::string::StringExecFns;

verus! {

/// The views of the items of a sequence, in order.
pub open spec fn views<T: View>(items: Seq<T>) -> Seq<T::V> {
    Seq::new(items.len(), |i: int| items[i]@)
}

/// One reported error: the source line, a label that places it on that line,
/// and the message. The program that embeds the library decides how a
/// diagnostic is shown.
#[derive(Debug)]
pub struct Diagnostic {
    pub line: u32,
    pub location: String,
    pub message: String,
}

/// What a `Diagnostic` stands for in contracts.
pub struct DiagnosticView {
    pub line: u32,
    pub location: Seq<char>,
    pub message: Seq<char>,
}

impl View for Diagnostic {
    type V = DiagnosticView;

    open spec fn view(&self) -> DiagnosticView {
        DiagnosticView { line: self.line, location: self.location@, message: self.message@ }
    }
}

impl Clone for Diagnostic {
    fn clone(&self) -> (r: Self)
        ensures
            r@ == self@,
    {
        Diagnostic {
            line: self.line,
            location: self.location.clone(),
            message: self.message.clone(),
        }
    }
}

impl PartialEq for Diagnostic {
    fn eq(&self, other: &Diagnostic) -> (r: bool) {
        self.line == other.line && self.location == other.location && self.message
            == other.message
    }
}

impl PartialEqSpecImpl for Diagnostic {
    open spec fn obeys_eq_spec() -> bool {
        true
    }

    open spec fn eq_spec(&self, other: &Diagnostic) -> bool {
        self@ == other@
    }
}

/// The diagnostic of a lexical error on `line`.
pub open spec fn lex_diagnostic(line: u32, message: Seq<char>) -> DiagnosticView {
    DiagnosticView { line, location: Seq::empty(), message }
}

/// Where a syntax error is placed: at the end of the input, or at the
/// offending token's text.
pub open spec fn parse_location(token: TokenView) -> Seq<char> {
    if token.kind is Eof {
        " at end"@
    } else {
        "at '"@ + token.lexeme + "'"@
    }
}

/// The diagnostic of a syntax error at `token`.
pub open spec fn parse_diagnostic(token: TokenView, message: Seq<char>) -> DiagnosticView {
    DiagnosticView { line: token.line, location: parse_location(token), message }
}

/// The diagnostic of a runtime error raised at `token`.
pub open spec fn runtime_diagnostic(token: TokenView, message: Seq<char>) -> DiagnosticView {
    DiagnosticView { line: token.line, location: Seq::empty(), message }
}

/// Records an error: appends its diagnostic and raises the flag.
pub fn report(
    line: u32,
    location: &str,
    message: &str,
    had_err: &mut bool,
    diagnostics: &mut Vec<Diagnostic>,
)
    ensures
        *final(had_err),
        views(final(diagnostics)@) == views(old(diagnostics)@).push(
            DiagnosticView { line, location: location@, message: message@ },
        ),
{
    let entry = Diagnostic {
        line,
        location: String::from_str(location),
        message: String::from_str(message),
    };
    diagnostics.push(entry);
    *had_err = true;
    assert(views(diagnostics@) =~= views(old(diagnostics)@).push(entry@));
}

/// Records a lexical error found on `line`.
pub fn lex_error(line: u32, message: &str, had_err: &mut bool, diagnostics: &mut Vec<Diagnostic>)
    ensures
        *final(had_err),
        views(final(diagnostics)@) == views(old(diagnostics)@).push(
            lex_diagnostic(line, message@),
        ),
{
    report(line, "", message, had_err, diagnostics);
    proof {
        reveal_strlit("");
        assert(""@ =~= Seq::<char>::empty());
    }
}

/// Records a syntax error at `token`: placed at the end of the input when the
/// token is the end-of-input marker, otherwise at the token's text.
pub fn parse_error(
    token: &Token,
    msg: &str,
    had_err: &mut bool,
    diagnostics: &mut Vec<Diagnostic>,
)
    ensures
        *final(had_err),
        views(final(diagnostics)@) == views(old(diagnostics)@).push(
            parse_diagnostic(token@, msg@),
        ),
{
    if *token.get_token_type() == TokenType::Eof {
        report(token.get_line(), " at end", msg, had_err, diagnostics);
    } else {
        let mut location = String::from_str("at '");
        let lexeme = token.get_lexeme();
        location.append(lexeme.as_str());
        location.append("'");
        report(token.get_line(), location.as_str(), msg, had_err, diagnostics);
    }
}

/// Records a runtime error raised by the operator `token`.
pub fn runtime_error(
    token: &Token,
    msg: &str,
    had_runtime_err: &mut bool,
    diagnostics: &mut Vec<Diagnostic>,
)
    ensures
        *final(had_runtime_err),
        views(final(diagnostics)@) == views(old(diagnostics)@).push(
            runtime_diagnostic(token@, msg@),
        ),
{
    report(token.get_line(), "", msg, had_runtime_err, diagnostics);
    proof {
        reveal_strlit("");
        assert(""@ =~= Seq::<char>::empty());
    }
}

} // verus!
