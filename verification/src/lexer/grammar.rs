use crate::lexer::token::{TokenTypeView, TokenView};
use crate::utils::{lex_diagnostic, DiagnosticView};
use vstd::prelude::*;
use vstd::utf8::decode_utf8;

verus! {

// The lexical grammar, stated over the bytes of the source. The scanner reads
// one byte at a time and takes it for the character of that number. Every
// byte that starts or ends a token is ASCII, so a byte above 0x7f only ever
// occurs inside a string literal or a comment, or is reported as unexpected.
/// The byte at `i`, taken for a character.
pub open spec fn char_at(bytes: Seq<u8>, i: int) -> char {
    bytes[i] as char
}

/// A decimal digit.
pub open spec fn is_digit(c: char) -> bool {
    '0' <= c <= '9'
}

/// An ASCII letter or the underscore.
pub open spec fn is_alpha(c: char) -> bool {
    ('a' <= c <= 'z') || ('A' <= c <= 'Z') || c == '_'
}

/// A character that may stand in a word behind its first.
pub open spec fn is_alnum(c: char) -> bool {
    is_alpha(c) || is_digit(c)
}

/// The sets of bytes of which the scanner consumes maximal runs.
pub enum ByteClass {
    /// Decimal digits.
    Digit,
    /// Letters, digits and the underscore.
    Word,
    /// Everything but a line feed: the rest of a comment.
    InLine,
    /// Everything but a double quote: the inside of a string literal.
    InString,
}

impl ByteClass {
    /// True if `c` is of this class.
    pub open spec fn holds(self, c: char) -> bool {
        match self {
            ByteClass::Digit => is_digit(c),
            ByteClass::Word => is_alnum(c),
            ByteClass::InLine => c != '\n',
            ByteClass::InString => c != '"',
        }
    }
}

/// The length of the longest run of bytes of `class` that starts at `from`.
pub open spec fn run_length(bytes: Seq<u8>, from: int, class: ByteClass) -> nat
    decreases bytes.len() - from,
{
    if 0 <= from < bytes.len() && class.holds(char_at(bytes, from)) {
        1 + run_length(bytes, from + 1, class)
    } else {
        0
    }
}

/// The number of line feeds among `bytes[from..to]`.
pub open spec fn newlines(bytes: Seq<u8>, from: int, to: int) -> nat
    decreases to - from,
{
    if from < to {
        newlines(bytes, from, to - 1) + if char_at(bytes, to - 1) == '\n' {
            1nat
        } else {
            0nat
        }
    } else {
        0
    }
}

/// The text that `bytes[from..to]` encodes.
pub open spec fn text(bytes: Seq<u8>, from: int, to: int) -> Seq<char> {
    decode_utf8(bytes.subrange(from, to))
}

/// The reserved word that `word` spells, if it spells one.
pub open spec fn keyword(word: Seq<char>) -> Option<TokenTypeView> {
    if word == "and"@ {
        Some(TokenTypeView::And)
    } else if word == "class"@ {
        Some(TokenTypeView::Class)
    } else if word == "else"@ {
        Some(TokenTypeView::Else)
    } else if word == "false"@ {
        Some(TokenTypeView::False)
    } else if word == "fun"@ {
        Some(TokenTypeView::Fun)
    } else if word == "for"@ {
        Some(TokenTypeView::For)
    } else if word == "if"@ {
        Some(TokenTypeView::If)
    } else if word == "nil"@ {
        Some(TokenTypeView::Nil)
    } else if word == "or"@ {
        Some(TokenTypeView::Or)
    } else if word == "print"@ {
        Some(TokenTypeView::Print)
    } else if word == "return"@ {
        Some(TokenTypeView::Return)
    } else if word == "super"@ {
        Some(TokenTypeView::Super)
    } else if word == "this"@ {
        Some(TokenTypeView::This)
    } else if word == "true"@ {
        Some(TokenTypeView::True)
    } else if word == "var"@ {
        Some(TokenTypeView::Var)
    } else if word == "while"@ {
        Some(TokenTypeView::While)
    } else {
        None
    }
}

/// The kind of a word: its reserved word, or an identifier of that name.
pub open spec fn word_kind(word: Seq<char>) -> TokenTypeView {
    match keyword(word) {
        Some(kind) => kind,
        None => TokenTypeView::Identifier(word),
    }
}

/// What the scanner makes of the bytes at one position: how many bytes it
/// consumes, the line it is on afterwards, the token it emits if any, and the
/// error it reports if any.
pub struct Scanned {
    pub used: nat,
    pub line: int,
    pub token: Option<TokenView>,
    pub error: Option<DiagnosticView>,
}

/// `used` bytes from `start` make a token of `kind`.
pub open spec fn emitted(
    bytes: Seq<u8>,
    start: int,
    used: nat,
    line: int,
    kind: TokenTypeView,
) -> Scanned {
    Scanned {
        used,
        line,
        token: Some(
            TokenView { kind, lexeme: text(bytes, start, start + used), line: line as u32 },
        ),
        error: None,
    }
}

/// `used` bytes are passed over without a token.
pub open spec fn skipped(used: nat, line: int) -> Scanned {
    Scanned { used, line, token: None, error: None }
}

/// `used` bytes are given up with an error.
pub open spec fn refused(used: nat, line: int, message: Seq<char>) -> Scanned {
    Scanned { used, line, token: None, error: Some(lex_diagnostic(line as u32, message)) }
}

/// An operator of one byte that a following `=` turns into another.
pub open spec fn with_equal(
    bytes: Seq<u8>,
    start: int,
    line: int,
    alone: TokenTypeView,
    followed: TokenTypeView,
) -> Scanned {
    if start + 1 < bytes.len() && char_at(bytes, start + 1) == '=' {
        emitted(bytes, start, 2, line, followed)
    } else {
        emitted(bytes, start, 1, line, alone)
    }
}

/// A slash: the start of a comment that runs to the end of the line, or the
/// division operator.
pub open spec fn slash(bytes: Seq<u8>, start: int, line: int) -> Scanned {
    if start + 1 < bytes.len() && char_at(bytes, start + 1) == '/' {
        skipped(2 + run_length(bytes, start + 2, ByteClass::InLine), line)
    } else {
        emitted(bytes, start, 1, line, TokenTypeView::Slash)
    }
}

/// A string literal: everything up to the next double quote, over line
/// feeds too. Its token lies on the line of the closing quote. Without a
/// closing quote the rest of the source is given up.
pub open spec fn string_literal(bytes: Seq<u8>, start: int, line: int) -> Scanned {
    let inside = run_length(bytes, start + 1, ByteClass::InString);
    let close = start + 1 + inside;
    let last_line = line + newlines(bytes, start + 1, close);
    if close >= bytes.len() {
        refused(1 + inside, last_line, "Unterminated string."@)
    } else {
        emitted(
            bytes,
            start,
            inside + 2,
            last_line,
            TokenTypeView::String(text(bytes, start + 1, close)),
        )
    }
}

/// The length of the number that starts at `start`: a run of digits, then,
/// if a dot and a digit follow, the dot and the run of digits after it. A dot
/// that no digit follows is not part of the number.
pub open spec fn number_length(bytes: Seq<u8>, start: int) -> nat {
    let whole = 1 + run_length(bytes, start + 1, ByteClass::Digit);
    let dot = start + whole;
    if dot + 1 < bytes.len() && char_at(bytes, dot) == '.' && is_digit(char_at(bytes, dot + 1)) {
        whole + 1 + run_length(bytes, dot + 1, ByteClass::Digit)
    } else {
        whole
    }
}

/// A number: its token carries its spelling.
pub open spec fn number_literal(bytes: Seq<u8>, start: int, line: int) -> Scanned {
    let used = number_length(bytes, start);
    emitted(bytes, start, used, line, TokenTypeView::Number(text(bytes, start, start + used)))
}

/// A word: the longest run of letters, digits and underscores, as a reserved
/// word or an identifier.
pub open spec fn word(bytes: Seq<u8>, start: int, line: int) -> Scanned {
    let used = 1 + run_length(bytes, start + 1, ByteClass::Word);
    emitted(bytes, start, used, line, word_kind(text(bytes, start, start + used)))
}

/// The kind of the punctuation mark that is always one byte long.
pub open spec fn punctuation(c: char) -> Option<TokenTypeView> {
    if c == '(' {
        Some(TokenTypeView::LeftParen)
    } else if c == ')' {
        Some(TokenTypeView::RightParen)
    } else if c == '{' {
        Some(TokenTypeView::LeftBrace)
    } else if c == '}' {
        Some(TokenTypeView::RightBrace)
    } else if c == ',' {
        Some(TokenTypeView::Comma)
    } else if c == '.' {
        Some(TokenTypeView::Dot)
    } else if c == '-' {
        Some(TokenTypeView::Minus)
    } else if c == '+' {
        Some(TokenTypeView::Plus)
    } else if c == ';' {
        Some(TokenTypeView::Semicolon)
    } else if c == '*' {
        Some(TokenTypeView::Star)
    } else {
        None
    }
}

/// What the scanner makes of the bytes at `start`, on line `line`.
pub open spec fn token_at(bytes: Seq<u8>, start: int, line: int) -> Scanned
    recommends
        0 <= start < bytes.len(),
{
    let c = char_at(bytes, start);
    if punctuation(c) is Some {
        emitted(bytes, start, 1, line, punctuation(c)->0)
    } else if c == '!' {
        with_equal(bytes, start, line, TokenTypeView::Bang, TokenTypeView::BangEqual)
    } else if c == '=' {
        with_equal(bytes, start, line, TokenTypeView::Equal, TokenTypeView::EqualEqual)
    } else if c == '<' {
        with_equal(bytes, start, line, TokenTypeView::Less, TokenTypeView::LessEqual)
    } else if c == '>' {
        with_equal(bytes, start, line, TokenTypeView::Greater, TokenTypeView::GreaterEqual)
    } else if c == '/' {
        slash(bytes, start, line)
    } else if c == ' ' || c == '\r' || c == '\t' {
        skipped(1, line)
    } else if c == '\n' {
        skipped(1, line + 1)
    } else if c == '"' {
        string_literal(bytes, start, line)
    } else if is_digit(c) {
        number_literal(bytes, start, line)
    } else if is_alpha(c) {
        word(bytes, start, line)
    } else {
        refused(1, line, "unexpected character."@)
    }
}

/// The marker that ends every token sequence.
pub open spec fn end_of_input(line: int) -> TokenView {
    TokenView { kind: TokenTypeView::Eof, lexeme: Seq::empty(), line: line as u32 }
}

/// The item, if there is one, as a sequence.
pub open spec fn optional<T>(item: Option<T>) -> Seq<T> {
    match item {
        Some(item) => seq![item],
        None => Seq::empty(),
    }
}

/// The tokens of the source from byte `pos` on, which lies on line `line`:
/// the tokens found there in order, then the end-of-input marker. (A step
/// always stays within the source, by `lemma_token_at_within`; the test on
/// `used` is there for the termination measure.)
pub open spec fn tokens_from(bytes: Seq<u8>, pos: int, line: int) -> Seq<TokenView>
    decreases bytes.len() - pos,
{
    if 0 <= pos < bytes.len() {
        let step = token_at(bytes, pos, line);
        if 0 < step.used <= bytes.len() - pos {
            optional(step.token) + tokens_from(bytes, pos + step.used, step.line)
        } else {
            seq![end_of_input(line)]
        }
    } else {
        seq![end_of_input(line)]
    }
}

/// The lexical errors of the source from byte `pos` on, in order.
pub open spec fn errors_from(bytes: Seq<u8>, pos: int, line: int) -> Seq<DiagnosticView>
    decreases bytes.len() - pos,
{
    if 0 <= pos < bytes.len() {
        let step = token_at(bytes, pos, line);
        if 0 < step.used <= bytes.len() - pos {
            optional(step.error) + errors_from(bytes, pos + step.used, step.line)
        } else {
            Seq::empty()
        }
    } else {
        Seq::empty()
    }
}

/// True if `tokens` holds no end-of-input marker.
pub open spec fn holds_no_eof(tokens: Seq<TokenView>) -> bool {
    forall|i: int| 0 <= i < tokens.len() ==> !((#[trigger] tokens[i]).kind is Eof)
}

/// True if `tokens` ends in an end-of-input marker and holds no other.
pub open spec fn ends_in_one_eof(tokens: Seq<TokenView>) -> bool {
    &&& tokens.len() > 0
    &&& tokens.last().kind is Eof
    &&& forall|i: int| 0 <= i < tokens.len() - 1 ==> !((#[trigger] tokens[i]).kind is Eof)
}

/// The tokens of a whole source.
pub open spec fn tokens_of(bytes: Seq<u8>) -> Seq<TokenView> {
    tokens_from(bytes, 0, 1)
}

/// The lexical errors of a whole source.
pub open spec fn errors_of(bytes: Seq<u8>) -> Seq<DiagnosticView> {
    errors_from(bytes, 0, 1)
}

/// A run ends within the source.
pub proof fn lemma_run_length_within(bytes: Seq<u8>, from: int, class: ByteClass)
    requires
        0 <= from <= bytes.len(),
    ensures
        from + run_length(bytes, from, class) <= bytes.len(),
    decreases bytes.len() - from,
{
    if from < bytes.len() && class.holds(char_at(bytes, from)) {
        lemma_run_length_within(bytes, from + 1, class);
    }
}

/// A run stops at the end of the source or at a byte outside the class, and
/// holds only bytes of the class.
pub proof fn lemma_run_length_maximal(bytes: Seq<u8>, from: int, class: ByteClass)
    requires
        0 <= from <= bytes.len(),
    ensures
        ({
            let end = from + run_length(bytes, from, class);
            &&& end == bytes.len() || !class.holds(char_at(bytes, end))
            &&& forall|i: int| from <= i < end ==> class.holds(#[trigger] char_at(bytes, i))
        }),
    decreases bytes.len() - from,
{
    if from < bytes.len() && class.holds(char_at(bytes, from)) {
        lemma_run_length_maximal(bytes, from + 1, class);
    }
}

/// Every step consumes at least one byte and stays within the source, so the
/// scanner always moves on and always comes to the end.
pub proof fn lemma_token_at_within(bytes: Seq<u8>, start: int, line: int)
    requires
        0 <= start < bytes.len(),
    ensures
        1 <= token_at(bytes, start, line).used <= bytes.len() - start,
{
    lemma_run_length_within(bytes, start + 1, ByteClass::Digit);
    lemma_run_length_within(bytes, start + 1, ByteClass::Word);
    lemma_run_length_within(bytes, start + 1, ByteClass::InString);
    if start + 1 < bytes.len() {
        lemma_run_length_within(bytes, start + 2, ByteClass::InLine);
    }
    let dot = start + 1 + run_length(bytes, start + 1, ByteClass::Digit);
    if dot + 1 < bytes.len() {
        lemma_run_length_within(bytes, dot + 1, ByteClass::Digit);
    }
}

} // verus!
