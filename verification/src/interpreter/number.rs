use vstd::prelude::*;

verus! {

// A number is an IEEE 754 single-precision value, carried as its 32 bits: the
// sign in the top bit, the magnitude (exponent and fraction) in the other 31.
// Order, equality and negation are decided on the bits here. Arithmetic and
// the reading of a literal are not: the interpreter asks its calculator for
// them.
/// The bit that holds the sign.
pub const SIGN_BIT: u32 = 0x8000_0000;

/// The magnitude of positive infinity; every larger magnitude is not a number.
pub const INFINITY_MAGNITUDE: u32 = 0x7f80_0000;

/// The 31 bits below the sign.
pub open spec fn magnitude(bits: u32) -> int {
    if bits >= SIGN_BIT {
        bits - SIGN_BIT
    } else {
        bits as int
    }
}

/// True if the sign bit is set.
pub open spec fn is_negative(bits: u32) -> bool {
    bits >= SIGN_BIT
}

/// True of the bit patterns that stand for no number.
pub open spec fn is_nan(bits: u32) -> bool {
    magnitude(bits) > INFINITY_MAGNITUDE
}

/// The place of a number in the order of all numbers: two patterns that are
/// numbers compare as their places do. Both zeros have place 0.
pub open spec fn place(bits: u32) -> int {
    if is_negative(bits) {
        -magnitude(bits)
    } else {
        magnitude(bits)
    }
}

/// `a == b` on numbers: false whenever either is not a number.
pub open spec fn number_eq(a: u32, b: u32) -> bool {
    !is_nan(a) && !is_nan(b) && place(a) == place(b)
}

/// `a < b` on numbers: false whenever either is not a number.
pub open spec fn number_lt(a: u32, b: u32) -> bool {
    !is_nan(a) && !is_nan(b) && place(a) < place(b)
}

/// `a <= b` on numbers: false whenever either is not a number.
pub open spec fn number_le(a: u32, b: u32) -> bool {
    !is_nan(a) && !is_nan(b) && place(a) <= place(b)
}

/// `-a`: the same magnitude under the other sign.
pub open spec fn negated(bits: u32) -> u32 {
    if bits >= SIGN_BIT {
        (bits - SIGN_BIT) as u32
    } else {
        (bits + SIGN_BIT) as u32
    }
}

/// Tells whether `bits` stand for no number.
pub fn not_a_number(bits: u32) -> (r: bool)
    ensures
        r == is_nan(bits),
{
    let low: u32 = if bits >= SIGN_BIT {
        bits - SIGN_BIT
    } else {
        bits
    };
    low > INFINITY_MAGNITUDE
}

/// The place of `bits` as a machine integer.
fn ordinal(bits: u32) -> (r: i64)
    ensures
        r == place(bits),
{
    if bits >= SIGN_BIT {
        -((bits - SIGN_BIT) as i64)
    } else {
        bits as i64
    }
}

/// `a == b` on numbers.
pub fn equal(a: u32, b: u32) -> (r: bool)
    ensures
        r == number_eq(a, b),
{
    !not_a_number(a) && !not_a_number(b) && ordinal(a) == ordinal(b)
}

/// `a < b` on numbers.
pub fn less(a: u32, b: u32) -> (r: bool)
    ensures
        r == number_lt(a, b),
{
    !not_a_number(a) && !not_a_number(b) && ordinal(a) < ordinal(b)
}

/// `a <= b` on numbers.
pub fn less_equal(a: u32, b: u32) -> (r: bool)
    ensures
        r == number_le(a, b),
{
    !not_a_number(a) && !not_a_number(b) && ordinal(a) <= ordinal(b)
}

/// `-a` on numbers.
pub fn negate(bits: u32) -> (r: u32)
    ensures
        r == negated(bits),
{
    if bits >= SIGN_BIT {
        bits - SIGN_BIT
    } else {
        bits + SIGN_BIT
    }
}

} // verus!
