use crate::lexer::boundary::{as_chars, is_ascii_bytes, lemma_decode_ascii};
use crate::lexer::grammar::{
    char_at, ends_in_one_eof, is_alnum, is_alpha, is_digit, lemma_run_length_maximal,
    lemma_run_length_within, number_length, optional, run_length, text, token_at, tokens_from,
    word_kind, ByteClass,
};
use crate::lexer::TokenTypeView;
use vstd::prelude::*;

verus! {

/// No step emits an end-of-input marker.
pub proof fn lemma_token_at_not_eof(bytes: Seq<u8>, start: int, line: int)
    ensures
        token_at(bytes, start, line).token matches Some(token) ==> !(token.kind is Eof),
{
    let used = 1 + run_length(bytes, start + 1, ByteClass::Word);
    assert(!(word_kind(text(bytes, start, start + used)) is Eof));
}

/// The tokens of a source end in exactly one end-of-input marker, wherever
/// the scan starts and whatever errors it meets.
pub proof fn lemma_tokens_end_in_one_eof(bytes: Seq<u8>, pos: int, line: int)
    ensures
        ends_in_one_eof(tokens_from(bytes, pos, line)),
    decreases bytes.len() - pos,
{
    if 0 <= pos < bytes.len() {
        let step = token_at(bytes, pos, line);
        if 0 < step.used <= bytes.len() - pos {
            lemma_tokens_end_in_one_eof(bytes, pos + step.used, step.line);
            lemma_token_at_not_eof(bytes, pos, line);
            let rest = tokens_from(bytes, pos + step.used, step.line);
            let all = tokens_from(bytes, pos, line);
            assert(all == optional(step.token) + rest);
            assert forall|i: int| 0 <= i < all.len() - 1 implies !((#[trigger] all[i]).kind
                is Eof) by {
                if i >= optional(step.token).len() {
                    assert(all[i] == rest[i - optional(step.token).len()]);
                }
            }
        }
    }
}

/// True if `spelling` is a numeral whose first `whole` characters are its
/// whole part: they are digits, and behind them, if at all, stand a dot and
/// more digits.
pub open spec fn is_numeral_with(spelling: Seq<char>, whole: int) -> bool {
    &&& 1 <= whole <= spelling.len()
    &&& forall|i: int| 0 <= i < whole ==> is_digit(#[trigger] spelling[i])
    &&& whole == spelling.len() || {
        &&& whole + 1 < spelling.len()
        &&& spelling[whole] == '.'
        &&& forall|i: int| whole < i < spelling.len() ==> is_digit(#[trigger] spelling[i])
    }
}

/// A numeral: digits, and behind them, if at all, a dot and more digits.
pub open spec fn is_numeral(spelling: Seq<char>) -> bool {
    exists|whole: int| is_numeral_with(spelling, whole)
}

/// A name: a letter or an underscore, then letters, digits and underscores.
pub open spec fn is_name(word: Seq<char>) -> bool {
    &&& word.len() >= 1
    &&& is_alpha(word[0])
    &&& forall|i: int| 0 <= i < word.len() ==> is_alnum(#[trigger] word[i])
}

/// A stretch of ASCII bytes reads as those bytes, one character each.
pub proof fn lemma_text_of_ascii(bytes: Seq<u8>, from: int, to: int)
    requires
        0 <= from <= to <= bytes.len(),
        forall|i: int| from <= i < to ==> #[trigger] bytes[i] < 0x80,
    ensures
        text(bytes, from, to).len() == to - from,
        forall|i: int| 0 <= i < to - from ==> #[trigger] text(bytes, from, to)[i] == char_at(
            bytes,
            from + i,
        ),
{
    let piece = bytes.subrange(from, to);
    assert(is_ascii_bytes(piece)) by {
        assert forall|i: int| 0 <= i < piece.len() implies #[trigger] piece[i] < 0x80 by {
            assert(piece[i] == bytes[from + i]);
        }
    }
    lemma_decode_ascii(piece);
    assert(text(bytes, from, to) == as_chars(piece));
}

/// Where a digit stands, the scanner makes a number token whose spelling is
/// a numeral, and whose lexeme is that spelling.
pub proof fn lemma_number_is_numeral(bytes: Seq<u8>, start: int, line: int)
    requires
        0 <= start < bytes.len(),
        is_digit(char_at(bytes, start)),
    ensures
        token_at(bytes, start, line).token matches Some(token) && token.kind matches TokenTypeView::Number(
            spelling,
        ) && is_numeral(spelling) && token.lexeme == spelling,
{
    let digits = run_length(bytes, start + 1, ByteClass::Digit);
    let whole = 1 + digits;
    let dot = start + whole;
    let used = number_length(bytes, start);
    lemma_run_length_within(bytes, start + 1, ByteClass::Digit);
    lemma_run_length_maximal(bytes, start + 1, ByteClass::Digit);
    if dot + 1 < bytes.len() {
        lemma_run_length_within(bytes, dot + 1, ByteClass::Digit);
        lemma_run_length_maximal(bytes, dot + 1, ByteClass::Digit);
    }
    assert forall|i: int| start <= i < start + used implies #[trigger] bytes[i] < 0x80 by {
        if i == dot {
            assert(char_at(bytes, i) == '.');
        } else {
            assert(is_digit(char_at(bytes, i)));
        }
    }
    lemma_text_of_ascii(bytes, start, start + used);
    let spelling = text(bytes, start, start + used);
    assert(is_numeral(spelling)) by {
        assert forall|i: int| 0 <= i < whole implies is_digit(#[trigger] spelling[i]) by {
            assert(spelling[i] == char_at(bytes, start + i));
        }
        if used != whole {
            assert(spelling[whole as int] == char_at(bytes, start + whole));
            assert forall|i: int| whole < i < spelling.len() implies is_digit(
                #[trigger] spelling[i],
            ) by {
                assert(spelling[i] == char_at(bytes, start + i));
            }
        }
        assert(is_numeral_with(spelling, whole as int));
    }
}

/// Where a letter or an underscore stands, the scanner makes a token whose
/// lexeme is a name: a reserved word's own kind, or an identifier of that
/// name.
pub proof fn lemma_word_is_name(bytes: Seq<u8>, start: int, line: int)
    requires
        0 <= start < bytes.len(),
        is_alpha(char_at(bytes, start)),
    ensures
        token_at(bytes, start, line).token matches Some(token) && is_name(token.lexeme) && (
        token.kind matches TokenTypeView::Identifier(name) ==> name == token.lexeme),
{
    let used = 1 + run_length(bytes, start + 1, ByteClass::Word);
    lemma_run_length_within(bytes, start + 1, ByteClass::Word);
    lemma_run_length_maximal(bytes, start + 1, ByteClass::Word);
    assert forall|i: int| start <= i < start + used implies #[trigger] bytes[i] < 0x80 by {
        assert(is_alnum(char_at(bytes, i)));
    }
    lemma_text_of_ascii(bytes, start, start + used);
    let word = text(bytes, start, start + used);
    assert forall|i: int| 0 <= i < word.len() implies is_alnum(#[trigger] word[i]) by {
        assert(word[i] == char_at(bytes, start + i));
    }
    assert(word[0] == char_at(bytes, start + 0));
}

} // verus!
