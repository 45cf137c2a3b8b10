//! Signed arithmetic that truncates and saturates.

use vstd::prelude::*;

verus! {

/// The quotient of `value` by `divisor`, rounded toward zero.
pub open spec fn truncated_quotient(value: int, divisor: int) -> int {
    if value >= 0 {
        value / divisor
    } else {
        -((-value) / divisor)
    }
}

/// Divides by a positive number and rounds toward zero.
pub fn divide_truncated(value: i128, divisor: u64) -> (quotient: i128)
    requires
        divisor > 0,
        value > i128::MIN,
    ensures
        quotient == truncated_quotient(value as int, divisor as int),
        quotient == 0 || (quotient > 0) == (value > 0),
        -(if value < 0 { -value } else { value as int }) <= quotient <= (
            if value < 0 { -value } else { value as int }
        ),
{
    if value >= 0 {
        let quotient: u128 = value as u128 / divisor as u128;
        proof {
            vstd::arithmetic::div_mod::lemma_div_is_ordered_by_denominator(
                value as int,
                1,
                divisor as int,
            );
            vstd::arithmetic::div_mod::lemma_div_pos_is_pos(value as int, divisor as int);
        }
        quotient as i128
    } else {
        let magnitude: i128 = -value;
        let quotient: u128 = magnitude as u128 / divisor as u128;
        proof {
            vstd::arithmetic::div_mod::lemma_div_is_ordered_by_denominator(
                magnitude as int,
                1,
                divisor as int,
            );
            vstd::arithmetic::div_mod::lemma_div_pos_is_pos(magnitude as int, divisor as int);
        }
        -(quotient as i128)
    }
}

/// The nearest number to `value` between `low` and `high`.
pub open spec fn clamped(value: int, low: int, high: int) -> int {
    if value < low {
        low
    } else if value > high {
        high
    } else {
        value
    }
}

/// The nearest `i64` to `value`.
pub fn clamp_i64(value: i128) -> (nearest: i64)
    ensures
        nearest == clamped(value as int, i64::MIN as int, i64::MAX as int),
{
    if value < i64::MIN as i128 {
        i64::MIN
    } else if value > i64::MAX as i128 {
        i64::MAX
    } else {
        value as i64
    }
}

/// The nearest `i32` to `value`.
pub fn clamp_i32(value: i128) -> (nearest: i32)
    ensures
        nearest == clamped(value as int, i32::MIN as int, i32::MAX as int),
{
    if value < i32::MIN as i128 {
        i32::MIN
    } else if value > i32::MAX as i128 {
        i32::MAX
    } else {
        value as i32
    }
}

/// The sum of two numbers, clamped to `i64`.
pub fn add_i64(a: i64, b: i64) -> (sum: i64)
    ensures
        sum == clamped(a + b, i64::MIN as int, i64::MAX as int),
{
    clamp_i64(a as i128 + b as i128)
}

} // verus!
