//! The order of floating-point numbers, read off their bits.
//!
//! A double is carried as its 64 bits. All comparisons of doubles that the
//! library makes are comparisons of integers.

use vstd::prelude::*;

verus! {

/// The bits of a double's sign.
pub const SIGN_BIT: u64 = 0x8000_0000_0000_0000;

/// The bits of positive infinity: every magnitude above it is not a number.
pub const INFINITY_BITS: u64 = 0x7ff0_0000_0000_0000;

/// The bits without the sign.
pub open spec fn magnitude(bits: u64) -> int {
    if bits >= SIGN_BIT {
        bits - SIGN_BIT
    } else {
        bits as int
    }
}

/// Whether the bits are those of a value that is not a number.
pub open spec fn is_nan(bits: u64) -> bool {
    magnitude(bits) > INFINITY_BITS
}

/// Where a double stands among the doubles. Both zeros stand at 0.
pub open spec fn rank(bits: u64) -> int {
    if bits >= SIGN_BIT {
        -magnitude(bits)
    } else {
        magnitude(bits)
    }
}

/// Whether `a >= b` holds of the doubles with these bits: never where one of
/// them is not a number.
pub open spec fn at_least(a: u64, b: u64) -> bool {
    !is_nan(a) && !is_nan(b) && rank(a) >= rank(b)
}

/// Whether `a >= b` holds of the doubles with these bits.
pub fn is_at_least(a: u64, b: u64) -> (r: bool)
    ensures
        r == at_least(a, b),
{
    let ma: u64 = if a >= SIGN_BIT {
        a - SIGN_BIT
    } else {
        a
    };
    let mb: u64 = if b >= SIGN_BIT {
        b - SIGN_BIT
    } else {
        b
    };
    if ma > INFINITY_BITS || mb > INFINITY_BITS {
        false
    } else if a < SIGN_BIT {
        if b < SIGN_BIT {
            ma >= mb
        } else {
            true
        }
    } else if b < SIGN_BIT {
        ma == 0 && mb == 0
    } else {
        ma <= mb
    }
}

/// Whether `a < b` holds of the doubles with these bits: never where one of
/// them is not a number.
pub open spec fn less(a: u64, b: u64) -> bool {
    !is_nan(a) && !is_nan(b) && rank(a) < rank(b)
}

/// Whether `a < b` holds of the doubles with these bits.
pub fn is_less(a: u64, b: u64) -> (r: bool)
    ensures
        r == less(a, b),
{
    is_at_least(b, a) && !is_at_least(a, b)
}

/// Doubles are ordered as the numbers they stand for: of two positive ones the
/// one with the greater bits is the greater, of two negative ones the other,
/// and a negative one comes before a positive one, the two zeros apart.
/// Infinity is greater than all other numbers. What is not a number is neither
/// less than anything nor at least anything.
pub proof fn doubles_are_ordered_as_numbers(a: u64, b: u64)
    ensures
        a <= 0x7ff0_0000_0000_0000 && b <= 0x7ff0_0000_0000_0000 ==> (less(a, b) <==> a < b) && (
        at_least(a, b) <==> a >= b),
        0x8000_0000_0000_0000 <= a <= 0xfff0_0000_0000_0000 && 0x8000_0000_0000_0000 <= b
            <= 0xfff0_0000_0000_0000 ==> (less(a, b) <==> a > b) && (at_least(a, b) <==> a <= b),
        0x8000_0000_0000_0000 <= a <= 0xfff0_0000_0000_0000 && b <= 0x7ff0_0000_0000_0000 ==> (less(
            a,
            b,
        ) <==> !(a == 0x8000_0000_0000_0000 && b == 0)) && at_least(b, a) && !less(b, a) && (
        at_least(a, b) <==> a == 0x8000_0000_0000_0000 && b == 0),
        0x7ff0_0000_0000_0000 < a < 0x8000_0000_0000_0000 || a > 0xfff0_0000_0000_0000 ==> !less(
            a,
            b,
        ) && !less(b, a) && !at_least(a, b) && !at_least(b, a),
{
}

} // verus!
