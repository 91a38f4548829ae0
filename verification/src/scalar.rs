//! Real numbers as IEEE 754 binary64 bit patterns.
//!
//! A pattern is a `u64`: the top bit is the sign, the remaining 63 bits are
//! the magnitude (exponent and fraction). Magnitudes compare as the absolute
//! values they encode, up to and including infinity; every magnitude above
//! that of infinity encodes a NaN.

use vstd::prelude::*;

verus! {

/// The sign bit of a pattern.
pub const SIGN: u64 = 0x8000_0000_0000_0000;

/// The magnitude of positive and negative infinity.
pub const INFINITY: u64 = 0x7ff0_0000_0000_0000;

/// The pattern without its sign bit.
pub open spec fn magnitude(bits: u64) -> u64 {
    if bits >= SIGN {
        (bits - SIGN) as u64
    } else {
        bits
    }
}

/// Whether the sign bit is set.
pub open spec fn is_negative(bits: u64) -> bool {
    bits >= SIGN
}

/// Whether the pattern encodes a NaN.
pub open spec fn spec_is_nan(bits: u64) -> bool {
    magnitude(bits) > INFINITY
}

/// The place of a number on the extended real line: of two patterns that are
/// not NaN, the one with the smaller rank encodes the smaller number, and
/// equal ranks encode equal numbers (both zeros have rank 0).
pub open spec fn rank(bits: u64) -> int {
    if is_negative(bits) {
        -(magnitude(bits) as int)
    } else {
        magnitude(bits) as int
    }
}

/// The pattern of the number with the opposite sign.
pub open spec fn spec_negate(bits: u64) -> u64 {
    if bits >= SIGN {
        (bits - SIGN) as u64
    } else {
        (bits + SIGN) as u64
    }
}

/// The comparison `a < b` of two numbers, false when either is a NaN.
pub open spec fn spec_less(a: u64, b: u64) -> bool {
    !spec_is_nan(a) && !spec_is_nan(b) && rank(a) < rank(b)
}

/// Tells whether `bits` encodes a NaN.
#[verifier::when_used_as_spec(spec_is_nan)]
pub fn is_nan(bits: u64) -> (r: bool)
    ensures
        r == spec_is_nan(bits),
{
    let m: u64 = if bits >= SIGN { bits - SIGN } else { bits };
    m > INFINITY
}

/// Flips the sign of a number, NaN included.
#[verifier::when_used_as_spec(spec_negate)]
pub fn negate(bits: u64) -> (r: u64)
    ensures
        r == spec_negate(bits),
        magnitude(r) == magnitude(bits),
        is_negative(r) != is_negative(bits),
{
    if bits >= SIGN {
        bits - SIGN
    } else {
        bits + SIGN
    }
}

/// Compares two numbers as IEEE 754 does: `a < b`, which is false when either
/// is a NaN and treats the two zeros as equal.
#[verifier::when_used_as_spec(spec_less)]
pub fn less(a: u64, b: u64) -> (r: bool)
    ensures
        r == spec_less(a, b),
{
    if is_nan(a) || is_nan(b) {
        return false;
    }
    let a_neg: bool = a >= SIGN;
    let b_neg: bool = b >= SIGN;
    let a_mag: u64 = if a_neg { a - SIGN } else { a };
    let b_mag: u64 = if b_neg { b - SIGN } else { b };
    if a_neg {
        if b_neg {
            b_mag < a_mag
        } else {
            a_mag > 0 || b_mag > 0
        }
    } else {
        if b_neg {
            false
        } else {
            a_mag < b_mag
        }
    }
}

/// Negation is its own inverse, keeps NaN a NaN and mirrors the rank.
pub proof fn lemma_negate(bits: u64)
    ensures
        spec_negate(spec_negate(bits)) == bits,
        spec_is_nan(spec_negate(bits)) == spec_is_nan(bits),
        rank(spec_negate(bits)) == -rank(bits),
{
}

} // verus!
