//! The numeric order of IEEE-754 binary64 values, read off their bit patterns.
//!
//! A pattern is a sign bit followed by 63 bits of magnitude. Among patterns
//! that are not NaNs, a larger magnitude is a number further from zero, so the
//! order of the numbers is the order of the signed magnitudes.

use vstd::prelude::*;

verus! {

/// The magnitude of the pattern whose exponent is all ones and whose fraction
/// is zero: infinity. Any larger magnitude is a NaN.
pub const INFINITY_MAGNITUDE: u64 = 0x7ff0_0000_0000_0000;

pub const SIGN_BIT: u64 = 0x8000_0000_0000_0000;

/// The pattern without its sign bit.
pub open spec fn magnitude(bits: u64) -> int {
    bits as int % 0x8000_0000_0000_0000
}

/// Whether the sign bit is set.
pub open spec fn is_negative(bits: u64) -> bool {
    bits >= 0x8000_0000_0000_0000
}

/// Whether the pattern is a NaN.
pub open spec fn is_nan(bits: u64) -> bool {
    magnitude(bits) > 0x7ff0_0000_0000_0000
}

/// An integer that grows with the number the pattern stands for. Both zeros
/// have key 0.
pub open spec fn order_key(bits: u64) -> int {
    if is_negative(bits) {
        -magnitude(bits)
    } else {
        magnitude(bits)
    }
}

/// `a <= b` as numbers; false if either is a NaN.
pub open spec fn real_le(a: u64, b: u64) -> bool {
    !is_nan(a) && !is_nan(b) && order_key(a) <= order_key(b)
}

/// Tests [`real_le`].
pub fn le(a: u64, b: u64) -> (r: bool)
    ensures
        r == real_le(a, b),
{
    let ma: u64 = a % SIGN_BIT;
    let mb: u64 = b % SIGN_BIT;
    if ma > INFINITY_MAGNITUDE || mb > INFINITY_MAGNITUDE {
        return false;
    }
    let a_negative = a >= SIGN_BIT;
    let b_negative = b >= SIGN_BIT;
    if a_negative {
        if b_negative {
            mb <= ma
        } else {
            true
        }
    } else {
        if b_negative {
            ma == 0 && mb == 0
        } else {
            ma <= mb
        }
    }
}

/// On patterns that are not NaNs, [`real_le`] is a total order up to the
/// sign of zero: it is reflexive and transitive, any two patterns compare
/// one way or the other, and two patterns that compare both ways are equal
/// or are the two zeros.
pub proof fn lemma_real_le_orders(a: u64, b: u64, c: u64)
    ensures
        !is_nan(a) ==> real_le(a, a),
        real_le(a, b) && real_le(b, c) ==> real_le(a, c),
        !is_nan(a) && !is_nan(b) ==> real_le(a, b) || real_le(b, a),
        real_le(a, b) && real_le(b, a) ==> a == b || (magnitude(a) == 0 && magnitude(b) == 0),
{
}

} // verus!
