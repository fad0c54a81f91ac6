//! Single-precision numbers as bit patterns.
//!
//! A real quantity (a distance, a coordinate, a probability) is carried as
//! the 32-bit pattern of its IEEE-754 single-precision encoding: one sign
//! bit above 31 bits of magnitude. Patterns whose magnitude exceeds
//! [`INFINITY`] are not numbers. The order of the encoded numbers is stated
//! here over integers: [`rank`] maps a pattern to a signed integer that
//! orders as the number does, with both zeros at rank 0.

use vstd::prelude::*;

verus! {

/// The sign bit of a pattern.
pub const SIGN: u32 = 0x8000_0000;

/// The pattern of positive infinity; every larger magnitude is not a number.
pub const INFINITY: u32 = 0x7f80_0000;

/// The pattern of the number one.
pub const ONE: u32 = 0x3f80_0000;

/// The pattern with its sign bit cleared.
pub open spec fn magnitude(bits: u32) -> u32 {
    if bits >= SIGN {
        (bits - SIGN) as u32
    } else {
        bits
    }
}

/// Whether the pattern encodes no number.
pub open spec fn is_nan(bits: u32) -> bool {
    magnitude(bits) > INFINITY
}

/// A signed integer that orders the patterns of numbers as the numbers
/// themselves are ordered. Both zeros have rank 0.
pub open spec fn rank(bits: u32) -> int {
    if bits >= SIGN {
        -(magnitude(bits) as int)
    } else {
        bits as int
    }
}

/// The strict order of the encoded numbers: false whenever either side is
/// not a number.
pub open spec fn lt(a: u32, b: u32) -> bool {
    !is_nan(a) && !is_nan(b) && rank(a) < rank(b)
}

/// The lesser of two encoded numbers, where a side that is not a number
/// yields to the other; on equal ranks the first is kept.
pub open spec fn min_of(a: u32, b: u32) -> u32 {
    if is_nan(a) {
        b
    } else if is_nan(b) {
        a
    } else if rank(b) < rank(a) {
        b
    } else {
        a
    }
}

/// Whether the pattern encodes a number in the half-open unit interval
/// `[0, 1)` with its sign bit clear.
pub open spec fn is_unit(bits: u32) -> bool {
    bits < ONE
}

/// Clears the sign bit.
pub fn abs(bits: u32) -> (r: u32)
    ensures
        r == magnitude(bits),
        r < SIGN,
        magnitude(r) == r,
        is_nan(r) == is_nan(bits),
{
    if bits >= SIGN {
        bits - SIGN
    } else {
        bits
    }
}

/// Tells whether the pattern encodes no number.
pub fn not_a_number(bits: u32) -> (r: bool)
    ensures
        r == is_nan(bits),
{
    abs(bits) > INFINITY
}

/// Compares two patterns as the numbers they encode.
pub fn less(a: u32, b: u32) -> (r: bool)
    ensures
        r == lt(a, b),
{
    if not_a_number(a) || not_a_number(b) {
        return false;
    }
    let ma: u32 = abs(a);
    let mb: u32 = abs(b);
    if a >= SIGN {
        if b >= SIGN {
            mb < ma
        } else {
            ma > 0 || mb > 0
        }
    } else {
        if b >= SIGN {
            false
        } else {
            ma < mb
        }
    }
}

/// The lesser of two patterns as numbers; see [`min_of`].
pub fn minimum(a: u32, b: u32) -> (r: u32)
    ensures
        r == min_of(a, b),
{
    if not_a_number(a) {
        b
    } else if not_a_number(b) {
        a
    } else if less(b, a) {
        b
    } else {
        a
    }
}

} // verus!
