//! Ordering of IEEE-754 single-precision numbers, read from their bit
//! patterns.
//!
//! Similarities and temperatures cross this crate as the 32-bit pattern of a
//! single-precision number. Nothing here does arithmetic on them: the crate
//! only ever has to order two numbers or test one against zero, and both
//! follow from the sign bit and the remaining 31 bits taken as an integer.

use vstd::prelude::*;

verus! {

/// The pattern whose only set bit is the sign.
pub const SIGN: u32 = 0x8000_0000;

/// The remaining 31 bits of positive infinity; larger ones are not numbers.
pub const INFINITY: u32 = 0x7f80_0000;

/// The pattern without its sign bit.
pub open spec fn magnitude(bits: u32) -> int {
    if bits >= SIGN {
        bits - SIGN
    } else {
        bits as int
    }
}

/// The pattern stands for no number.
pub open spec fn is_nan(bits: u32) -> bool {
    magnitude(bits) > INFINITY
}

/// An integer that orders the numbers as the numbers themselves are ordered:
/// both zeros get 0, positive numbers grow with their magnitude and negative
/// ones fall with it.
pub open spec fn order_key(bits: u32) -> int {
    if bits >= SIGN {
        -magnitude(bits)
    } else {
        magnitude(bits)
    }
}

/// `a <= b` as numbers; false when either is no number.
pub open spec fn le(a: u32, b: u32) -> bool {
    !is_nan(a) && !is_nan(b) && order_key(a) <= order_key(b)
}

/// `a < b` as numbers; false when either is no number.
pub open spec fn lt(a: u32, b: u32) -> bool {
    !is_nan(a) && !is_nan(b) && order_key(a) < order_key(b)
}

/// Whether the pattern stands for no number.
pub fn is_not_a_number(bits: u32) -> (b: bool)
    ensures
        b == is_nan(bits),
{
    if bits >= SIGN {
        bits - SIGN > INFINITY
    } else {
        bits > INFINITY
    }
}

/// The ordering integer of a pattern.
pub fn key(bits: u32) -> (k: i64)
    ensures
        k == order_key(bits),
{
    if bits >= SIGN {
        let m: u32 = bits - SIGN;
        let w: i64 = m as i64;
        0 - w
    } else {
        bits as i64
    }
}

/// `a <= b` as numbers.
pub fn less_or_equal(a: u32, b: u32) -> (r: bool)
    ensures
        r == le(a, b),
{
    !is_not_a_number(a) && !is_not_a_number(b) && key(a) <= key(b)
}

/// `a < b` as numbers.
pub fn less_than(a: u32, b: u32) -> (r: bool)
    ensures
        r == lt(a, b),
{
    !is_not_a_number(a) && !is_not_a_number(b) && key(a) < key(b)
}

/// Among numbers the order is total: of two different keys one is smaller.
pub proof fn law_order_is_total(a: u32, b: u32)
    requires
        !is_nan(a),
        !is_nan(b),
    ensures
        le(a, b) || le(b, a),
        lt(a, b) <==> !le(b, a),
{
}

/// The order is transitive.
pub proof fn law_order_is_transitive(a: u32, b: u32, c: u32)
    requires
        le(a, b),
        le(b, c),
    ensures
        le(a, c),
{
}

} // verus!
