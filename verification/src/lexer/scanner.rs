use crate::lexer::boundary::{lemma_boundaries_of_ascii, lemma_text_of_bytes};
use crate::lexer::grammar::{
    char_at, end_of_input, ends_in_one_eof, errors_from, holds_no_eof, is_alnum, is_alpha,
    is_digit, keyword, lemma_run_length_maximal, lemma_token_at_within, newlines, number_length,
    optional, run_length, text, token_at, tokens_from, ByteClass,
};
use crate::lexer::laws::lemma_tokens_end_in_one_eof;
use crate::lexer::token::{Token, TokenType, TokenView};
use crate::utils::{lex_error, views, Diagnostic, DiagnosticView};
use vstd::prelude::*;
use vstd::string::{StringExecFns, StringSliceAdditionalSpecFns};
use vstd::utf8::{
    is_char_boundary, is_char_boundary_iff_not_is_continuation_byte,
    is_char_boundary_start_end_of_seq, valid_utf8, valid_utf8_split,
};

verus! {

/// Turns source text into tokens, in one pass from the first byte to the last.
pub struct Scanner<'a> {
    source: &'a str,
    tokens: Vec<Token>,
    start: usize,
    current: usize,
    line: u32,
}

impl<'a> Scanner<'a> {
    /// The bytes of the source.
    pub closed spec fn source(&self) -> Seq<u8> {
        self.source.spec_bytes()
    }

    /// The tokens made so far.
    pub closed spec fn tokens(&self) -> Seq<TokenView> {
        views(self.tokens@)
    }

    /// The byte at which the scan stands.
    pub closed spec fn position(&self) -> int {
        self.current as int
    }

    /// The line on which the scan stands, counted from 1.
    pub closed spec fn line(&self) -> int {
        self.line as int
    }

    /// The scan stands within the source, on a line that the bytes behind it
    /// can account for.
    pub closed spec fn wf(&self) -> bool {
        &&& self.current <= self.source().len()
        &&& 1 <= self.line <= self.current + 1
    }

    /// A scanner at the start of `source`, on line 1, with no token made.
    pub fn new(source: &'a str) -> (scanner: Scanner<'a>)
        ensures
            scanner.wf(),
            scanner.source() == source.spec_bytes(),
            scanner.tokens() == Seq::<TokenView>::empty(),
            scanner.position() == 0,
            scanner.line() == 1,
    {
        let scanner = Scanner { source, tokens: Vec::new(), start: 0, current: 0, line: 1 };
        assert(views(scanner.tokens@) =~= Seq::<TokenView>::empty());
        scanner
    }

    /// Scans the rest of the source. The tokens found are added to those made
    /// before, and the end-of-input marker after them: the first scan of a
    /// scanner gives a sequence that ends in exactly one such marker. A lexical
    /// error is recorded and raises the flag; the scan goes on behind it.
    pub fn scan_tokens(&mut self, had_err: &mut bool, diagnostics: &mut Vec<Diagnostic>) -> (tokens:
        &Vec<Token>)
        requires
            old(self).wf(),
            old(self).source().len() < u32::MAX,
        ensures
            final(self).wf(),
            final(self).source() == old(self).source(),
            final(self).position() == final(self).source().len(),
            final(self).tokens() == old(self).tokens() + tokens_from(
                old(self).source(),
                old(self).position(),
                old(self).line(),
            ),
            views(tokens@) == final(self).tokens(),
            holds_no_eof(old(self).tokens()) ==> ends_in_one_eof(final(self).tokens()),
            views(final(diagnostics)@) == views(old(diagnostics)@) + errors_from(
                old(self).source(),
                old(self).position(),
                old(self).line(),
            ),
            *final(had_err) == (*old(had_err) || errors_from(
                old(self).source(),
                old(self).position(),
                old(self).line(),
            ).len() > 0),
    {
        let ghost bytes = self.source();
        let ghost all_tokens = tokens_from(bytes, self.position(), self.line());
        let ghost all_errors = errors_from(bytes, self.position(), self.line());
        let ghost mut made: Seq<TokenView> = Seq::empty();
        let ghost mut found: Seq<DiagnosticView> = Seq::empty();
        proof {
            lemma_tokens_end_in_one_eof(bytes, self.position(), self.line());
        }
        while !self.is_at_end()
            invariant
                self.wf(),
                self.source() == bytes,
                bytes.len() < u32::MAX,
                self.tokens() == old(self).tokens() + made,
                all_tokens == made + tokens_from(bytes, self.position(), self.line()),
                views(diagnostics@) == views(old(diagnostics)@) + found,
                all_errors == found + errors_from(bytes, self.position(), self.line()),
                *had_err == (*old(had_err) || found.len() > 0),
            decreases bytes.len() - self.current,
        {
            self.start = self.current;
            let ghost step = token_at(bytes, self.position(), self.line());
            let ghost before = self.position();
            let ghost line_before = self.line();
            proof {
                lemma_token_at_within(bytes, before, line_before);
            }
            self.scan_token(had_err, diagnostics);
            proof {
                assert(tokens_from(bytes, before, line_before) == optional(step.token)
                    + tokens_from(bytes, before + step.used, step.line));
                assert(errors_from(bytes, before, line_before) == optional(step.error)
                    + errors_from(bytes, before + step.used, step.line));
                made = made + optional(step.token);
                found = found + optional(step.error);
                assert(self.tokens() =~= old(self).tokens() + made);
                assert(all_tokens =~= made + tokens_from(bytes, self.position(), self.line()));
                assert(views(diagnostics@) =~= views(old(diagnostics)@) + found);
                assert(all_errors =~= found + errors_from(bytes, self.position(), self.line()));
            }
        }
        let ghost tokens_before = self.tokens();
        self.tokens.push(Token::new(TokenType::Eof, String::new(), self.line));
        proof {
            assert(tokens_from(bytes, self.position(), self.line()) == seq![
                end_of_input(self.line()),
            ]);
            assert(self.tokens() =~= tokens_before.push(end_of_input(self.line())));
            assert(self.tokens() =~= old(self).tokens() + all_tokens);
            assert(all_errors =~= found);
            if holds_no_eof(old(self).tokens()) {
                assert forall|i: int| 0 <= i < self.tokens().len() - 1 implies !((
                #[trigger] self.tokens()[i]).kind is Eof) by {
                    if i >= old(self).tokens().len() {
                        assert(self.tokens()[i] == all_tokens[i - old(self).tokens().len()]);
                    }
                }
            }
        }
        &self.tokens
    }

    /// Scans one token, or one stretch of source that makes none.
    fn scan_token(&mut self, had_err: &mut bool, diagnostics: &mut Vec<Diagnostic>)
        requires
            old(self).wf(),
            old(self).source().len() < u32::MAX,
            old(self).start == old(self).current,
            old(self).current < old(self).source().len(),
        ensures
            final(self).wf(),
            final(self).source == old(self).source,
            ({
                let step = token_at(old(self).source(), old(self).position(), old(self).line());
                &&& final(self).position() == old(self).position() + step.used
                &&& final(self).line() == step.line
                &&& final(self).tokens() == old(self).tokens() + optional(step.token)
                &&& views(final(diagnostics)@) == views(old(diagnostics)@) + optional(step.error)
                &&& *final(had_err) == (*old(had_err) || step.error is Some)
            }),
    {
        let ghost bytes = self.source();
        let ghost start = self.start as int;
        proof {
            lemma_text_of_bytes(self.source@);
            lemma_token_at_within(bytes, start, self.line());
        }
        let c = self.advance();
        proof {
            if bytes[start] < 0x80 {
                lemma_boundaries_of_ascii(bytes, start);
            }
            if start + 1 < bytes.len() && bytes[start + 1] < 0x80 {
                lemma_boundaries_of_ascii(bytes, start + 1);
            }
        }
        match c {
            '(' => self.add_token(TokenType::LeftParen),
            ')' => self.add_token(TokenType::RightParen),
            '{' => self.add_token(TokenType::LeftBrace),
            '}' => self.add_token(TokenType::RightBrace),
            ',' => self.add_token(TokenType::Comma),
            '.' => self.add_token(TokenType::Dot),
            '-' => self.add_token(TokenType::Minus),
            '+' => self.add_token(TokenType::Plus),
            ';' => self.add_token(TokenType::Semicolon),
            '*' => self.add_token(TokenType::Star),
            '!' => match self.expected_match('=') {
                true => self.add_token(TokenType::BangEqual),
                false => self.add_token(TokenType::Bang),
            },
            '=' => match self.expected_match('=') {
                true => self.add_token(TokenType::EqualEqual),
                false => self.add_token(TokenType::Equal),
            },
            '<' => match self.expected_match('=') {
                true => self.add_token(TokenType::LessEqual),
                false => self.add_token(TokenType::Less),
            },
            '>' => match self.expected_match('=') {
                true => self.add_token(TokenType::GreaterEqual),
                false => self.add_token(TokenType::Greater),
            },
            '/' => match self.expected_match('/') {
                true => {
                    while self.peek() != '\n' && !self.is_at_end()
                        invariant
                            self.source == old(self).source,
                            self.tokens == old(self).tokens,
                            self.line == old(self).line,
                            start + 2 <= self.current <= bytes.len(),
                            bytes == self.source(),
                            run_length(bytes, start + 2, ByteClass::InLine) == (self.current
                                - (start + 2)) + run_length(
                                bytes,
                                self.current as int,
                                ByteClass::InLine,
                            ),
                        decreases bytes.len() - self.current,
                    {
                        self.advance();
                    }
                    proof {
                        assert(views(diagnostics@) =~= views(old(diagnostics)@) + optional(
                            None::<DiagnosticView>,
                        ));
                        assert(self.tokens() =~= old(self).tokens() + optional(None::<TokenView>));
                    }
                },
                false => self.add_token(TokenType::Slash),
            },
            ' ' | '\r' | '\t' => {
                proof {
                    assert(views(diagnostics@) =~= views(old(diagnostics)@) + optional(
                        None::<DiagnosticView>,
                    ));
                    assert(self.tokens() =~= old(self).tokens() + optional(None::<TokenView>));
                }
            },
            '\n' => {
                self.line += 1;
                proof {
                    assert(views(diagnostics@) =~= views(old(diagnostics)@) + optional(
                        None::<DiagnosticView>,
                    ));
                    assert(self.tokens() =~= old(self).tokens() + optional(None::<TokenView>));
                }
            },
            '"' => match self.string() {
                Ok(string_literal) => {
                    proof {
                        lemma_run_length_maximal(bytes, start + 1, ByteClass::InString);
                        lemma_boundaries_of_ascii(bytes, self.current - 1);
                    }
                    self.add_token(TokenType::String(string_literal));
                },
                Err(err_msg) => {
                    lex_error(self.line, err_msg, had_err, diagnostics);
                    proof {
                        assert(self.tokens() =~= old(self).tokens() + optional(None::<TokenView>));
                    }
                },
            },
            '0'..='9' => {
                let number: String = self.number();
                proof {
                    lemma_boundaries_of_ascii(bytes, self.current - 1);
                }
                self.add_token(TokenType::Number(number));
            },
            'a'..='z' | 'A'..='Z' | '_' => {
                let identifier: String = self.identifier();
                proof {
                    lemma_boundaries_of_ascii(bytes, self.current - 1);
                }
                match Self::reserved(&identifier) {
                    Some(token_type) => self.add_token(token_type),
                    None => self.add_token(TokenType::Identifier(identifier)),
                }
            },
            _ => {
                lex_error(self.line, "unexpected character.", had_err, diagnostics);
                proof {
                    assert(self.tokens() =~= old(self).tokens() + optional(None::<TokenView>));
                }
            },
        }
    }

    /// The reserved word that `word` spells, if it spells one.
    fn reserved(word: &String) -> (kind: Option<TokenType>)
        ensures
            match kind {
                Some(kind) => keyword(word@) == Some(kind@),
                None => keyword(word@) is None,
            },
    {
        if *word == String::from_str("and") {
            Some(TokenType::And)
        } else if *word == String::from_str("class") {
            Some(TokenType::Class)
        } else if *word == String::from_str("else") {
            Some(TokenType::Else)
        } else if *word == String::from_str("false") {
            Some(TokenType::False)
        } else if *word == String::from_str("fun") {
            Some(TokenType::Fun)
        } else if *word == String::from_str("for") {
            Some(TokenType::For)
        } else if *word == String::from_str("if") {
            Some(TokenType::If)
        } else if *word == String::from_str("nil") {
            Some(TokenType::Nil)
        } else if *word == String::from_str("or") {
            Some(TokenType::Or)
        } else if *word == String::from_str("print") {
            Some(TokenType::Print)
        } else if *word == String::from_str("return") {
            Some(TokenType::Return)
        } else if *word == String::from_str("super") {
            Some(TokenType::Super)
        } else if *word == String::from_str("this") {
            Some(TokenType::This)
        } else if *word == String::from_str("true") {
            Some(TokenType::True)
        } else if *word == String::from_str("var") {
            Some(TokenType::Var)
        } else if *word == String::from_str("while") {
            Some(TokenType::While)
        } else {
            None
        }
    }

    /// Consumes the rest of a word and returns the whole word.
    fn identifier(&mut self) -> (word: String)
        requires
            old(self).source().len() < u32::MAX,
            old(self).start + 1 == old(self).current,
            old(self).current <= old(self).source().len(),
            valid_utf8(old(self).source()),
            is_alpha(char_at(old(self).source(), old(self).start as int)),
        ensures
            final(self).source == old(self).source,
            final(self).tokens == old(self).tokens,
            final(self).start == old(self).start,
            final(self).line == old(self).line,
            final(self).current == old(self).start + 1 + run_length(
                old(self).source(),
                old(self).start + 1,
                ByteClass::Word,
            ),
            final(self).current <= old(self).source().len(),
            word@ == text(old(self).source(), old(self).start as int, final(self).current as int),
            is_alnum(char_at(old(self).source(), final(self).current - 1)),
    {
        let ghost bytes = self.source();
        let ghost start = self.start as int;
        while Self::is_alnum(self.peek())
            invariant
                self.source == old(self).source,
                self.tokens == old(self).tokens,
                self.start == old(self).start,
                self.line == old(self).line,
                bytes == self.source(),
                start + 1 <= self.current <= bytes.len(),
                is_alnum(char_at(bytes, self.current - 1)),
                run_length(bytes, start + 1, ByteClass::Word) == (self.current - (start + 1))
                    + run_length(bytes, self.current as int, ByteClass::Word),
            decreases bytes.len() - self.current,
        {
            self.advance();
        }
        proof {
            lemma_boundaries_of_ascii(bytes, start);
            lemma_boundaries_of_ascii(bytes, self.current - 1);
        }
        self.slice(self.start, self.current)
    }

    fn is_alpha(c: char) -> (r: bool)
        ensures
            r == is_alpha(c),
    {
        match c {
            'a'..='z' | 'A'..='Z' | '_' => true,
            _ => false,
        }
    }

    fn is_alnum(c: char) -> (r: bool)
        ensures
            r == is_alnum(c),
    {
        Self::is_alpha(c) || Self::is_digit(c)
    }

    /// Consumes the rest of a number and returns its spelling.
    fn number(&mut self) -> (spelling: String)
        requires
            old(self).source().len() < u32::MAX,
            old(self).start + 1 == old(self).current,
            old(self).current <= old(self).source().len(),
            valid_utf8(old(self).source()),
            is_digit(char_at(old(self).source(), old(self).start as int)),
        ensures
            final(self).source == old(self).source,
            final(self).tokens == old(self).tokens,
            final(self).start == old(self).start,
            final(self).line == old(self).line,
            final(self).current == old(self).start + number_length(
                old(self).source(),
                old(self).start as int,
            ),
            final(self).current <= old(self).source().len(),
            spelling@ == text(
                old(self).source(),
                old(self).start as int,
                final(self).current as int,
            ),
            is_digit(char_at(old(self).source(), final(self).current - 1)),
    {
        let ghost bytes = self.source();
        let ghost start = self.start as int;
        while Self::is_digit(self.peek())
            invariant
                self.source == old(self).source,
                self.tokens == old(self).tokens,
                self.start == old(self).start,
                self.line == old(self).line,
                bytes == self.source(),
                start + 1 <= self.current <= bytes.len(),
                is_digit(char_at(bytes, self.current - 1)),
                run_length(bytes, start + 1, ByteClass::Digit) == (self.current - (start + 1))
                    + run_length(bytes, self.current as int, ByteClass::Digit),
            decreases bytes.len() - self.current,
        {
            self.advance();
        }
        // Look for a fractional part.
        if self.peek() == '.' && Self::is_digit(self.peek_next()) {
            let ghost dot = self.current as int;
            // Consume the ".".
            self.advance();
            while Self::is_digit(self.peek())
                invariant
                    self.source == old(self).source,
                    self.tokens == old(self).tokens,
                    self.start == old(self).start,
                    self.line == old(self).line,
                    bytes == self.source(),
                    dot + 1 <= self.current <= bytes.len(),
                    self.current > dot + 1 ==> is_digit(char_at(bytes, self.current - 1)),
                    dot + 1 < bytes.len(),
                    is_digit(char_at(bytes, dot + 1)),
                    run_length(bytes, dot + 1, ByteClass::Digit) == (self.current - (dot + 1))
                        + run_length(bytes, self.current as int, ByteClass::Digit),
                decreases bytes.len() - self.current,
            {
                self.advance();
            }
        }
        proof {
            lemma_boundaries_of_ascii(bytes, start);
            lemma_boundaries_of_ascii(bytes, self.current - 1);
        }
        self.slice(self.start, self.current)
    }

    fn is_digit(c: char) -> (r: bool)
        ensures
            r == is_digit(c),
    {
        match c {
            '0'..='9' => true,
            _ => false,
        }
    }

    /// Consumes a string literal behind its opening quote, the closing quote
    /// included, and returns what stands between the two. Without a closing
    /// quote it consumes the rest of the source and fails.
    fn string(&mut self) -> (result: Result<String, &'static str>)
        requires
            old(self).source().len() < u32::MAX,
            old(self).start + 1 == old(self).current,
            old(self).current <= old(self).source().len(),
            valid_utf8(old(self).source()),
            char_at(old(self).source(), old(self).start as int) == '"',
            1 <= old(self).line <= old(self).current,
        ensures
            final(self).source == old(self).source,
            final(self).tokens == old(self).tokens,
            final(self).start == old(self).start,
            ({
                let bytes = old(self).source();
                let start = old(self).start as int;
                let inside = run_length(bytes, start + 1, ByteClass::InString);
                let close = start + 1 + inside;
                &&& final(self).line == old(self).line + newlines(bytes, start + 1, close)
                &&& final(self).line <= final(self).current
                &&& match result {
                    Ok(contents) => {
                        &&& close < bytes.len()
                        &&& final(self).current == close + 1
                        &&& contents@ == text(bytes, start + 1, close)
                    },
                    Err(message) => {
                        &&& close >= bytes.len()
                        &&& final(self).current == bytes.len()
                        &&& final(self).current == close
                        &&& message@ == "Unterminated string."@
                    },
                }
            }),
    {
        let ghost bytes = self.source();
        let ghost start = self.start as int;
        while self.peek() != '"' && !self.is_at_end()
            invariant
                self.source == old(self).source,
                self.tokens == old(self).tokens,
                self.start == old(self).start,
                bytes == self.source(),
                bytes.len() < u32::MAX,
                start + 1 <= self.current <= bytes.len(),
                run_length(bytes, start + 1, ByteClass::InString) == (self.current - (start + 1))
                    + run_length(bytes, self.current as int, ByteClass::InString),
                self.line == old(self).line + newlines(bytes, start + 1, self.current as int),
                self.line <= self.current,
            decreases bytes.len() - self.current,
        {
            if self.peek() == '\n' {
                self.line += 1;
            }
            self.advance();
        }
        if self.is_at_end() {
            return Err("Unterminated string.");
        }
        // Consume the closing quote.

        self.advance();
        proof {
            lemma_boundaries_of_ascii(bytes, start);
            lemma_boundaries_of_ascii(bytes, self.current - 1);
        }
        Ok(self.slice(self.start + 1, self.current - 1))
    }

    /// The text of the source from byte `from` up to byte `to`.
    fn slice(&self, from: usize, to: usize) -> (piece: String)
        requires
            from <= to <= self.source().len(),
            valid_utf8(self.source()),
            is_char_boundary(self.source(), from as int),
            is_char_boundary(self.source(), to as int),
        ensures
            piece@ == text(self.source(), from as int, to as int),
    {
        let ghost bytes = self.source();
        let (head, _) = self.source.split_at(to);
        proof {
            valid_utf8_split(bytes, to as int);
            assert(head.spec_bytes() == bytes.subrange(0, to as int));
            if from < to {
                is_char_boundary_iff_not_is_continuation_byte(bytes, from as int);
                is_char_boundary_iff_not_is_continuation_byte(head.spec_bytes(), from as int);
            } else {
                is_char_boundary_start_end_of_seq(head.spec_bytes());
            }
        }
        let (_, piece) = head.split_at(from);
        proof {
            assert(piece.spec_bytes() =~= bytes.subrange(from as int, to as int));
            lemma_text_of_bytes(piece@);
        }
        String::from_str(piece)
    }

    /// The character after the next one, or NUL where there is none.
    fn peek_next(&self) -> (c: char)
        requires
            self.source().len() < u32::MAX,
            self.current <= self.source().len(),
        ensures
            c == if self.current + 1 < self.source().len() {
                char_at(self.source(), self.current + 1)
            } else {
                '\0'
            },
    {
        if self.current + 1 >= self.source.as_bytes().len() {
            return '\0';
        }
        self.source.as_bytes()[self.current + 1] as char
    }

    /// The next character, or NUL at the end of the source.
    fn peek(&self) -> (c: char)
        ensures
            c == if self.current < self.source().len() {
                char_at(self.source(), self.current as int)
            } else {
                '\0'
            },
    {
        if self.is_at_end() {
            return '\0';
        }
        self.source.as_bytes()[self.current] as char
    }

    /// Consumes the next character if it is `expected`.
    fn expected_match(&mut self, expected: char) -> (matched: bool)
        requires
            old(self).current <= old(self).source().len(),
        ensures
            final(self).source == old(self).source,
            final(self).tokens == old(self).tokens,
            final(self).start == old(self).start,
            final(self).line == old(self).line,
            matched == (old(self).current < old(self).source().len() && char_at(
                old(self).source(),
                old(self).current as int,
            ) == expected),
            final(self).current == if matched {
                old(self).current + 1
            } else {
                old(self).current as int
            },
    {
        if self.is_at_end() {
            return false;
        }
        if self.source.as_bytes()[self.current] as char != expected {
            return false;
        }
        self.current += 1;
        true
    }

    /// Consumes the next character and returns it.
    fn advance(&mut self) -> (c: char)
        requires
            old(self).current < old(self).source().len(),
        ensures
            final(self).source == old(self).source,
            final(self).tokens == old(self).tokens,
            final(self).start == old(self).start,
            final(self).line == old(self).line,
            final(self).current == old(self).current + 1,
            c == char_at(old(self).source(), old(self).current as int),
    {
        let c: char = self.source.as_bytes()[self.current] as char;
        self.current += 1;
        c
    }

    /// Makes a token of the bytes consumed since the token's start.
    fn add_token(&mut self, token_type: TokenType)
        requires
            old(self).start <= old(self).current <= old(self).source().len(),
            valid_utf8(old(self).source()),
            is_char_boundary(old(self).source(), old(self).start as int),
            is_char_boundary(old(self).source(), old(self).current as int),
        ensures
            final(self).source == old(self).source,
            final(self).start == old(self).start,
            final(self).current == old(self).current,
            final(self).line == old(self).line,
            final(self).tokens() == old(self).tokens().push(
                TokenView {
                    kind: token_type@,
                    lexeme: text(
                        old(self).source(),
                        old(self).start as int,
                        old(self).current as int,
                    ),
                    line: old(self).line,
                },
            ),
    {
        let new_token: Token = Token::new(
            token_type,
            self.slice(self.start, self.current),
            self.line,
        );
        self.tokens.push(new_token);
        assert(views(self.tokens@) =~= views(old(self).tokens@).push(new_token@));
    }

    fn is_at_end(&self) -> (r: bool)
        ensures
            r == (self.current >= self.source().len()),
    {
        self.current >= self.source.as_bytes().len()
    }
}

} // verus!
