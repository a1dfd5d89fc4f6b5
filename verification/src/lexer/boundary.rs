use vstd::prelude::*;
use vstd::utf8::{
    decode_first_scalar, decode_utf8, encode_utf8, encode_utf8_decode_utf8,
    encode_utf8_valid_utf8, is_char_boundary, is_char_boundary_iff_not_is_continuation_byte,
    is_char_boundary_start_end_of_seq, is_continuation_byte, length_of_first_scalar,
    pop_first_scalar, valid_first_scalar, valid_utf8, valid_utf8_split,
};

verus! {

/// In well-formed UTF-8 an ASCII byte is a character of its own: a character
/// starts at it and another starts after it.
pub proof fn lemma_boundaries_of_ascii(bytes: Seq<u8>, i: int)
    requires
        valid_utf8(bytes),
        0 <= i < bytes.len(),
        bytes[i] < 0x80,
    ensures
        is_char_boundary(bytes, i),
        is_char_boundary(bytes, i + 1),
{
    is_char_boundary_iff_not_is_continuation_byte(bytes, i);
    if i + 1 == bytes.len() {
        is_char_boundary_start_end_of_seq(bytes);
    } else {
        valid_utf8_split(bytes, i);
        let tail = bytes.subrange(i, bytes.len() as int);
        assert(tail[0] == bytes[i]);
        assert(valid_first_scalar(tail));
        assert(length_of_first_scalar(tail) == 1);
        let rest = pop_first_scalar(tail);
        assert(valid_utf8(rest));
        assert(rest.len() > 0);
        assert(rest[0] == bytes[i + 1]);
        assert(valid_first_scalar(rest));
        assert(!is_continuation_byte(rest[0]));
        is_char_boundary_iff_not_is_continuation_byte(bytes, i + 1);
    }
}

/// True if every byte is ASCII.
pub open spec fn is_ascii_bytes(bytes: Seq<u8>) -> bool {
    forall|i: int| 0 <= i < bytes.len() ==> #[trigger] bytes[i] < 0x80
}

/// The bytes, each taken for the character of its number.
pub open spec fn as_chars(bytes: Seq<u8>) -> Seq<char> {
    Seq::new(bytes.len(), |i: int| bytes[i] as char)
}

/// ASCII bytes are well-formed UTF-8 and decode to one character each.
pub proof fn lemma_decode_ascii(bytes: Seq<u8>)
    requires
        is_ascii_bytes(bytes),
    ensures
        valid_utf8(bytes),
        decode_utf8(bytes) == as_chars(bytes),
    decreases bytes.len(),
{
    if bytes.len() > 0 {
        let first = bytes[0];
        assert(first < 0x80);
        assert(first & 0x7f == first) by (bit_vector)
            requires
                first < 0x80,
        ;
        assert(decode_first_scalar(bytes) == first as u32);
        assert(valid_first_scalar(bytes));
        let rest = pop_first_scalar(bytes);
        assert(rest == bytes.subrange(1, bytes.len() as int));
        assert forall|i: int| 0 <= i < rest.len() implies #[trigger] rest[i] < 0x80 by {
            assert(rest[i] == bytes[i + 1]);
        }
        lemma_decode_ascii(rest);
        assert(decode_utf8(bytes) =~= as_chars(bytes)) by {
            assert(decode_utf8(bytes) == seq![decode_first_scalar(bytes) as char] + decode_utf8(
                rest,
            ));
            assert forall|i: int| 0 <= i < bytes.len() implies decode_utf8(bytes)[i]
                == as_chars(bytes)[i] by {
                if i > 0 {
                    assert(decode_utf8(rest)[i - 1] == rest[i - 1] as char);
                }
            }
        }
    } else {
        assert(decode_utf8(bytes) =~= as_chars(bytes));
    }
}

/// The text of a string is what its bytes decode to.
pub proof fn lemma_text_of_bytes(chars: Seq<char>)
    ensures
        valid_utf8(encode_utf8(chars)),
        decode_utf8(encode_utf8(chars)) == chars,
{
    encode_utf8_valid_utf8(chars);
    encode_utf8_decode_utf8(chars);
}

} // verus!
