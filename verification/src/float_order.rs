//! The order of `f64` values, computed on their IEEE 754 binary64 bit
//! patterns. A reading of a number is carried through the library as the
//! bit pattern of the `f64` it parses to, and compared here with the
//! semantics of `<` on `f64`.

use vstd::prelude::*;

verus! {

/// The bit of a binary64 pattern that holds the sign.
pub const SIGN_BIT: u64 = 0x8000_0000_0000_0000;

/// The largest magnitude that is not a NaN: the pattern of positive infinity.
pub const INFINITY_BITS: u64 = 0x7FF0_0000_0000_0000;

/// Whether the sign bit of `b` is set.
pub open spec fn sign_set(b: u64) -> bool {
    b >= SIGN_BIT
}

/// The pattern without its sign bit: exponent and fraction, read as one
/// integer. For non-NaN values it orders like the absolute value.
pub open spec fn magnitude(b: u64) -> int {
    if sign_set(b) {
        b - SIGN_BIT
    } else {
        b as int
    }
}

/// Whether `b` encodes a NaN: all exponent bits set and a non-zero fraction.
pub open spec fn is_nan_bits(b: u64) -> bool {
    magnitude(b) > INFINITY_BITS
}

/// `a < b` on the `f64` values that the patterns encode: false when either
/// is a NaN, false between the two zeros, and otherwise the order of
/// sign and magnitude.
pub open spec fn f64_bits_lt(a: u64, b: u64) -> bool {
    &&& !is_nan_bits(a)
    &&& !is_nan_bits(b)
    &&& !(magnitude(a) == 0 && magnitude(b) == 0)
    &&& if !sign_set(a) && !sign_set(b) {
        magnitude(a) < magnitude(b)
    } else if sign_set(a) && sign_set(b) {
        magnitude(b) < magnitude(a)
    } else {
        sign_set(a)
    }
}

/// `a == b` on the `f64` values that the patterns encode: both are numbers
/// (not NaN) and neither is below the other.
pub open spec fn f64_bits_eq(a: u64, b: u64) -> bool {
    &&& !is_nan_bits(a)
    &&& !is_nan_bits(b)
    &&& !f64_bits_lt(a, b)
    &&& !f64_bits_lt(b, a)
}

/// `a <= b` on the `f64` values that the patterns encode.
pub open spec fn f64_bits_le(a: u64, b: u64) -> bool {
    f64_bits_lt(a, b) || f64_bits_eq(a, b)
}

/// Whether `b` encodes a NaN.
pub fn float_bits_is_nan(b: u64) -> (r: bool)
    ensures
        r == is_nan_bits(b),
{
    let mag: u64 = if b >= SIGN_BIT {
        b - SIGN_BIT
    } else {
        b
    };
    mag > INFINITY_BITS
}

/// Decides `f64_bits_eq`.
pub fn float_bits_eq(a: u64, b: u64) -> (r: bool)
    ensures
        r == f64_bits_eq(a, b),
{
    !float_bits_is_nan(a) && !float_bits_is_nan(b) && !float_bits_lt(a, b) && !float_bits_lt(b, a)
}

/// Decides `f64_bits_lt`.
pub fn float_bits_lt(a: u64, b: u64) -> (r: bool)
    ensures
        r == f64_bits_lt(a, b),
{
    let a_neg = a >= SIGN_BIT;
    let b_neg = b >= SIGN_BIT;
    let a_mag: u64 = if a_neg {
        a - SIGN_BIT
    } else {
        a
    };
    let b_mag: u64 = if b_neg {
        b - SIGN_BIT
    } else {
        b
    };
    if a_mag > INFINITY_BITS || b_mag > INFINITY_BITS {
        false
    } else if a_mag == 0 && b_mag == 0 {
        false
    } else if !a_neg && !b_neg {
        a_mag < b_mag
    } else if a_neg && b_neg {
        b_mag < a_mag
    } else {
        a_neg
    }
}

/// No value is below itself.
pub proof fn lemma_f64_bits_lt_irreflexive(a: u64)
    ensures
        !f64_bits_lt(a, a),
{
}

/// Two values are never each below the other.
pub proof fn lemma_f64_bits_lt_asymmetric(a: u64, b: u64)
    ensures
        !(f64_bits_lt(a, b) && f64_bits_lt(b, a)),
{
}

/// The order is transitive.
pub proof fn lemma_f64_bits_lt_transitive(a: u64, b: u64, c: u64)
    requires
        f64_bits_lt(a, b),
        f64_bits_lt(b, c),
    ensures
        f64_bits_lt(a, c),
{
}

/// Incomparable non-NaN values are equal values: the same pattern, or the
/// two zeros. So among non-NaN values that are pairwise distinct, any two
/// are ordered one way or the other.
pub proof fn lemma_f64_bits_incomparable(a: u64, b: u64)
    requires
        !is_nan_bits(a),
        !is_nan_bits(b),
        !f64_bits_lt(a, b),
        !f64_bits_lt(b, a),
    ensures
        a == b || (magnitude(a) == 0 && magnitude(b) == 0),
{
}

/// Equal values are below the same values.
pub proof fn lemma_f64_bits_eq_lt(a: u64, b: u64, c: u64)
    requires
        f64_bits_eq(a, b),
        f64_bits_lt(b, c),
    ensures
        f64_bits_lt(a, c),
{
}

/// Among non-negative numbers (sign bit clear, not NaN), the order of the
/// values is the order of the bit patterns read as unsigned integers.
pub proof fn lemma_non_negative_order_is_integer_order(a: u64, b: u64)
    requires
        a <= 0x7FF0_0000_0000_0000,
        b <= 0x7FF0_0000_0000_0000,
    ensures
        f64_bits_lt(a, b) <==> a < b,
{
}

/// Among negative numbers (sign bit set, not NaN), the order of the values
/// is the reverse of the order of the bit patterns.
pub proof fn lemma_negative_order_is_reversed(a: u64, b: u64)
    requires
        0x8000_0000_0000_0000 <= a <= 0xFFF0_0000_0000_0000,
        0x8000_0000_0000_0000 <= b <= 0xFFF0_0000_0000_0000,
    ensures
        f64_bits_lt(a, b) <==> b < a,
{
}

/// A negative number is below every non-negative one, except that the two
/// zeros are equal; a non-negative number is never below a negative one.
pub proof fn lemma_sign_order(neg: u64, pos: u64)
    requires
        0x8000_0000_0000_0000 <= neg <= 0xFFF0_0000_0000_0000,
        pos <= 0x7FF0_0000_0000_0000,
    ensures
        f64_bits_lt(neg, pos) <==> !(neg == 0x8000_0000_0000_0000 && pos == 0),
        !f64_bits_lt(pos, neg),
{
}

/// A NaN (all exponent bits set, fraction not zero) is below nothing and
/// nothing is below it.
pub proof fn lemma_nan_unordered(nan: u64, x: u64)
    requires
        0x7FF0_0000_0000_0000 < nan < 0x8000_0000_0000_0000 || 0xFFF0_0000_0000_0000 < nan,
    ensures
        !f64_bits_lt(nan, x),
        !f64_bits_lt(x, nan),
{
}

} // verus!
