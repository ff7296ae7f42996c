//! The order of floating-point numbers, read from their bits.
//!
//! The library holds a score as the bits of its IEEE 754 representation, as `f64::to_bits` and
//! `f32::to_bits` give them. All it does with a score is to compare it.
use vstd::prelude::*;

verus! {

/// The bits of a number without its sign.
pub open spec fn magnitude(bits: u64) -> u64 {
    if bits >= 0x8000_0000_0000_0000 {
        (bits - 0x8000_0000_0000_0000) as u64
    } else {
        bits
    }
}

/// Whether the bits are those of no number.
pub open spec fn is_nan(bits: u64) -> bool {
    magnitude(bits) > 0x7ff0_0000_0000_0000
}

/// An integer that is ordered as the number is. Both zeros have the key zero.
pub open spec fn key(bits: u64) -> int {
    if bits >= 0x8000_0000_0000_0000 {
        -(magnitude(bits) as int)
    } else {
        magnitude(bits) as int
    }
}

/// Whether `a` is at least `b`, as `>=` has it: no comparison with no number holds.
pub open spec fn at_least(a: u64, b: u64) -> bool {
    !is_nan(a) && !is_nan(b) && key(a) >= key(b)
}

/// Whether the bits are those of no number.
pub fn nan(bits: u64) -> (r: bool)
    ensures
        r == is_nan(bits),
{
    let m: u64 = if bits >= 0x8000_0000_0000_0000 {
        bits - 0x8000_0000_0000_0000
    } else {
        bits
    };
    m > 0x7ff0_0000_0000_0000
}

/// An integer that is ordered as the number is.
pub fn key_of(bits: u64) -> (k: i64)
    ensures
        k == key(bits),
{
    if bits >= 0x8000_0000_0000_0000 {
        -((bits - 0x8000_0000_0000_0000) as i64)
    } else {
        bits as i64
    }
}

/// Whether `a` is at least `b`.
pub fn ge(a: u64, b: u64) -> (r: bool)
    ensures
        r == at_least(a, b),
{
    !nan(a) && !nan(b) && key_of(a) >= key_of(b)
}

/// Whether `a` is greater than `b`, as `>` has it: no comparison with no number holds.
pub open spec fn greater(a: u64, b: u64) -> bool {
    !is_nan(a) && !is_nan(b) && key(a) > key(b)
}

/// Whether `a` is greater than `b`.
pub fn gt(a: u64, b: u64) -> (r: bool)
    ensures
        r == greater(a, b),
{
    !nan(a) && !nan(b) && key_of(a) > key_of(b)
}

/// The bits of infinity.
pub const INFINITY_BITS: u64 = 0x7ff0_0000_0000_0000;

/// The bits of a single-precision number without its sign.
pub open spec fn magnitude32(bits: u32) -> u32 {
    if bits >= 0x8000_0000 {
        (bits - 0x8000_0000) as u32
    } else {
        bits
    }
}

/// An integer that is ordered as the single-precision number is.
pub open spec fn key32(bits: u32) -> int {
    if bits >= 0x8000_0000 {
        -(magnitude32(bits) as int)
    } else {
        magnitude32(bits) as int
    }
}

/// An integer that is ordered as the single-precision number is.
pub fn key32_of(bits: u32) -> (k: i64)
    ensures
        k == key32(bits),
{
    if bits >= 0x8000_0000 {
        -((bits - 0x8000_0000) as i64)
    } else {
        bits as i64
    }
}

// Laws.

/// The key of a number orders as the number does: of two numbers without a sign the one with the
/// greater bits is greater, of two with a sign the one with the lesser bits, and one without a
/// sign is no less than one with it. The two zeros are equal.
pub proof fn law_keys_order_as_numbers(a: u64, b: u64)
    ensures
        a < b < 0x8000_0000_0000_0000 ==> key(a) < key(b),
        0x8000_0000_0000_0000 <= a < b ==> key(a) > key(b),
        a < 0x8000_0000_0000_0000 <= b ==> key(a) >= key(b),
        key(0) == key(0x8000_0000_0000_0000),
        a < 0x8000_0000_0000_0000 <= b && key(a) == key(b) ==> a == 0 && b
            == 0x8000_0000_0000_0000,
{
}

/// The key of a single-precision number orders as the number does.
pub proof fn law_single_keys_order_as_numbers(a: u32, b: u32)
    ensures
        a < b < 0x8000_0000 ==> key32(a) < key32(b),
        0x8000_0000 <= a < b ==> key32(a) > key32(b),
        a < 0x8000_0000 <= b ==> key32(a) >= key32(b),
        key32(0) == key32(0x8000_0000),
        a < 0x8000_0000 <= b && key32(a) == key32(b) ==> a == 0 && b == 0x8000_0000,
{
}

/// Of two numbers one is at least the other, a number is at least itself, and it is greater than
/// another exactly where that is not at least it; what is no number compares with nothing.
pub proof fn law_numbers_compare(a: u64, b: u64)
    ensures
        !is_nan(a) && !is_nan(b) ==> at_least(a, b) || at_least(b, a),
        !is_nan(a) ==> at_least(a, a),
        !is_nan(a) && !is_nan(b) ==> greater(a, b) == !at_least(b, a),
        is_nan(a) || is_nan(b) ==> !at_least(a, b) && !greater(a, b),
        0x7ff0_0000_0000_0000 < a < 0x8000_0000_0000_0000 ==> is_nan(a),
        a <= 0x7ff0_0000_0000_0000 ==> !is_nan(a),
        a < b <= 0x7ff0_0000_0000_0000 ==> greater(b, a),
{
}

} // verus!
