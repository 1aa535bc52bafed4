//! Raster samples as bit patterns of IEEE-754 binary64 numbers.
//!
//! The top bit is the sign, the next eleven the exponent, the low fifty-two
//! the fraction. Everything the combination needs to know of a sample can be
//! read off the pattern without the sign bit: whether it is a zero, and
//! whether it is a NaN. Numeric equality follows from those two.

use vstd::prelude::*;

verus! {

/// The pattern that has only the sign bit set.
pub const SIGN_BIT: u64 = 0x8000_0000_0000_0000;

/// The pattern of positive infinity: every exponent bit set, no fraction bit.
pub const INFINITY: u64 = 0x7FF0_0000_0000_0000;

/// The pattern of the number one.
pub const ONE: u64 = 0x3FF0_0000_0000_0000;

/// The pattern of positive zero.
pub const ZERO: u64 = 0;

/// The pattern without its sign bit.
pub open spec fn magnitude(bits: u64) -> u64 {
    if bits >= SIGN_BIT {
        (bits - SIGN_BIT) as u64
    } else {
        bits
    }
}

/// The sample is not a number: all exponent bits set and some fraction bit.
pub open spec fn is_nan(bits: u64) -> bool {
    magnitude(bits) > INFINITY
}

/// The sample is numerically zero, of either sign.
pub open spec fn is_zero(bits: u64) -> bool {
    magnitude(bits) == 0
}

/// Numeric equality of two samples: a NaN equals nothing, the two zeros equal
/// each other, and any other two samples are equal when their patterns are.
pub open spec fn numeric_eq(a: u64, b: u64) -> bool {
    &&& !is_nan(a)
    &&& !is_nan(b)
    &&& (a == b || (is_zero(a) && is_zero(b)))
}

/// Strips the sign bit.
pub fn magnitude_of(bits: u64) -> (m: u64)
    ensures
        m == magnitude(bits),
{
    if bits >= SIGN_BIT {
        bits - SIGN_BIT
    } else {
        bits
    }
}

/// Tells whether the sample is a NaN.
pub fn nan(bits: u64) -> (r: bool)
    ensures
        r == is_nan(bits),
{
    magnitude_of(bits) > INFINITY
}

/// Tells whether the sample differs numerically from zero. A NaN does.
pub fn nonzero(bits: u64) -> (r: bool)
    ensures
        r == !is_zero(bits),
{
    magnitude_of(bits) != 0
}

/// Compares two samples numerically.
pub fn equal(a: u64, b: u64) -> (r: bool)
    ensures
        r == numeric_eq(a, b),
{
    if nan(a) || nan(b) {
        false
    } else {
        a == b || (!nonzero(a) && !nonzero(b))
    }
}

} // verus!
