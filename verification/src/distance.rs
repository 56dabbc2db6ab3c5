//! Distances along a ray, held as the bit patterns of IEEE-754 double
//! precision numbers, and how they compare.
//!
//! For numbers that are not NaN, the order of doubles is the order of their
//! sign and magnitude: a pattern below 2^63 is a non-negative number that
//! grows with the pattern, one at or above it is the negative of the number
//! whose pattern has the sign bit cleared. Both zeros compare equal.
use vstd::prelude::*;

verus! {

/// The sign bit of a double.
pub const SIGN_BIT: u64 = 0x8000_0000_0000_0000;

/// The pattern of positive infinity; a magnitude above it is a NaN.
pub const INFINITY_BITS: u64 = 0x7ff0_0000_0000_0000;

/// The pattern of the largest finite double.
pub const MAX_BITS: u64 = 0x7fef_ffff_ffff_ffff;

/// The pattern of `0.0`.
pub const ZERO_BITS: u64 = 0;

/// The pattern is a NaN.
pub open spec fn is_nan(bits: u64) -> bool {
    bits % 0x8000_0000_0000_0000 > 0x7ff0_0000_0000_0000
}

/// The position of a double that is not NaN on the number line: equal
/// positions are equal numbers, a lower position a lower number.
pub open spec fn ordinal(bits: u64) -> int {
    if bits < 0x8000_0000_0000_0000 {
        bits as int
    } else {
        -((bits - 0x8000_0000_0000_0000) as int)
    }
}

/// `a < b` on doubles.
pub open spec fn float_lt(a: u64, b: u64) -> bool {
    !is_nan(a) && !is_nan(b) && ordinal(a) < ordinal(b)
}

/// `a >= b` on doubles.
pub open spec fn float_ge(a: u64, b: u64) -> bool {
    !is_nan(a) && !is_nan(b) && ordinal(a) >= ordinal(b)
}

/// The double with pattern `bits` is a NaN.
pub fn is_nan_bits(bits: u64) -> (r: bool)
    ensures
        r == is_nan(bits),
{
    bits % SIGN_BIT > INFINITY_BITS
}

/// `a < b` on the doubles with patterns `a` and `b`.
pub fn less_than(a: u64, b: u64) -> (r: bool)
    ensures
        r == float_lt(a, b),
{
    if is_nan_bits(a) || is_nan_bits(b) {
        return false;
    }
    let a_negative = a >= SIGN_BIT;
    let b_negative = b >= SIGN_BIT;
    if !a_negative && !b_negative {
        a < b
    } else if a_negative && b_negative {
        a > b
    } else if a_negative {
        // a <= 0 <= b: equal only where both are zeros
        !(a == SIGN_BIT && b == 0)
    } else {
        false
    }
}

/// `a >= b` on the doubles with patterns `a` and `b`.
pub fn at_least(a: u64, b: u64) -> (r: bool)
    ensures
        r == float_ge(a, b),
{
    if is_nan_bits(a) || is_nan_bits(b) {
        return false;
    }
    !less_than(a, b)
}

} // verus!
