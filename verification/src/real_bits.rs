//! Ordering of IEEE-754 binary64 values given by their bit patterns.
//!
//! A value is the `u64` that `f64::to_bits` yields.  The comparisons here
//! agree with the `<=` and `<` of binary64 numbers: NaN compares false
//! with everything, and the two zeros compare equal.
use vstd::prelude::*;

verus! {

/// The sign bit of a binary64 bit pattern.
pub open spec fn sign_bit(b: u64) -> bool {
    b >= 0x8000_0000_0000_0000u64
}

/// The bit pattern without its sign bit.
pub open spec fn magnitude(b: u64) -> int {
    if sign_bit(b) {
        b - 0x8000_0000_0000_0000u64
    } else {
        b as int
    }
}

/// A NaN: all exponent bits set and a non-zero fraction.
pub open spec fn is_nan(b: u64) -> bool {
    magnitude(b) > 0x7FF0_0000_0000_0000int
}

/// For values that are not NaN, an integer that orders exactly as the
/// binary64 values do (both zeros map to 0).
pub open spec fn order_key(b: u64) -> int {
    if sign_bit(b) {
        -magnitude(b)
    } else {
        magnitude(b)
    }
}

/// `a <= b` on binary64 values.
pub open spec fn real_le(a: u64, b: u64) -> bool {
    !is_nan(a) && !is_nan(b) && order_key(a) <= order_key(b)
}

/// `a < b` on binary64 values.
pub open spec fn real_lt(a: u64, b: u64) -> bool {
    !is_nan(a) && !is_nan(b) && order_key(a) < order_key(b)
}

fn split(b: u64) -> (r: (bool, u64))
    ensures
        r.0 == sign_bit(b),
        r.1 as int == magnitude(b),
{
    if b >= 0x8000_0000_0000_0000u64 {
        (true, b - 0x8000_0000_0000_0000u64)
    } else {
        (false, b)
    }
}

/// True when the bit pattern is a NaN.
pub fn bits_is_nan(b: u64) -> (r: bool)
    ensures
        r == is_nan(b),
{
    let (_, m) = split(b);
    m > 0x7FF0_0000_0000_0000u64
}

/// `a <= b` for the binary64 values with bit patterns `a` and `b`.
pub fn bits_le(a: u64, b: u64) -> (r: bool)
    ensures
        r == real_le(a, b),
{
    let (sa, ma) = split(a);
    let (sb, mb) = split(b);
    if ma > 0x7FF0_0000_0000_0000u64 || mb > 0x7FF0_0000_0000_0000u64 {
        false
    } else if !sa && !sb {
        ma <= mb
    } else if sa && sb {
        mb <= ma
    } else if sa {
        true
    } else {
        ma == 0 && mb == 0
    }
}

/// `a < b` for the binary64 values with bit patterns `a` and `b`.
pub fn bits_lt(a: u64, b: u64) -> (r: bool)
    ensures
        r == real_lt(a, b),
{
    let (sa, ma) = split(a);
    let (sb, mb) = split(b);
    if ma > 0x7FF0_0000_0000_0000u64 || mb > 0x7FF0_0000_0000_0000u64 {
        false
    } else if !sa && !sb {
        ma < mb
    } else if sa && sb {
        mb < ma
    } else if sa {
        !(ma == 0 && mb == 0)
    } else {
        false
    }
}

} // verus!
