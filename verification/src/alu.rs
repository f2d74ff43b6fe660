//! Eight-bit arithmetic with a flag: the sums, differences and shifts that
//! the register instructions compute.

use vstd::prelude::*;

verus! {

/// The low eight bits of `a + b`.
pub open spec fn sum_low(a: u8, b: u8) -> u8 {
    ((a + b) % 0x100) as u8
}

/// 1 if `a + b` does not fit in eight bits, else 0.
pub open spec fn carry(a: u8, b: u8) -> u8 {
    if a + b > 0xFF {
        1
    } else {
        0
    }
}

/// `a - b` modulo 256.
pub open spec fn difference_low(a: u8, b: u8) -> u8 {
    ((a - b) % 0x100) as u8
}

/// 1 if `a - b` is negative, else 0.
pub open spec fn borrow(a: u8, b: u8) -> u8 {
    if a < b {
        1
    } else {
        0
    }
}

/// `a` shifted right by one bit.
pub open spec fn half(a: u8) -> u8 {
    a / 2
}

/// The bit that a shift to the right moves out.
pub open spec fn low_bit(a: u8) -> u8 {
    a % 2
}

/// The low eight bits of `a` shifted left by one bit.
pub open spec fn double_low(a: u8) -> u8 {
    ((a * 2) % 0x100) as u8
}

/// The bit that a shift to the left moves out.
pub open spec fn high_bit(a: u8) -> u8 {
    a / 0x80
}

/// Adds two bytes, wrapping around, and tells whether the sum overflowed.
pub fn add_carry(a: u8, b: u8) -> (res: (u8, u8))
    ensures
        res.0 == sum_low(a, b),
        res.1 == carry(a, b),
        res.1 <= 1,
        res.0 + 0x100 * res.1 == a + b,
{
    let sum: u16 = a as u16 + b as u16;
    if sum > 0xFF {
        ((sum - 0x100) as u8, 1)
    } else {
        (sum as u8, 0)
    }
}

/// Subtracts `b` from `a`, wrapping around, and tells whether it had to
/// borrow.
pub fn sub_borrow(a: u8, b: u8) -> (res: (u8, u8))
    ensures
        res.0 == difference_low(a, b),
        res.1 == borrow(a, b),
        res.1 <= 1,
        res.0 - 0x100 * res.1 == a - b,
{
    if a < b {
        ((0x100 - (b as u16 - a as u16)) as u8, 1)
    } else {
        (a - b, 0)
    }
}

/// Shifts a byte right by one bit and gives the bit moved out.
pub fn shift_right(a: u8) -> (res: (u8, u8))
    ensures
        res.0 == half(a),
        res.1 == low_bit(a),
        res.1 <= 1,
        2 * res.0 + res.1 == a,
{
    assert(a >> 1u8 == a / 2 && a & 1 == a % 2) by (bit_vector);
    (a >> 1u8, a & 1)
}

/// Shifts a byte left by one bit, dropping the bit moved out, and gives
/// that bit.
pub fn shift_left(a: u8) -> (res: (u8, u8))
    ensures
        res.0 == double_low(a),
        res.1 == high_bit(a),
        res.1 <= 1,
        res.0 + 0x100 * res.1 == 2 * a,
{
    assert(a << 1u8 == (a * 2) % 0x100 && a >> 7u8 == a / 0x80) by (bit_vector);
    (a << 1u8, a >> 7u8)
}

} // verus!
