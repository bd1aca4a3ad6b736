//! Counters and rates that stop at the ends of their range.

use vstd::prelude::*;

verus! {

/// A counter raised by `amount`, stopping at its largest value.
pub open spec fn raised(counter: u64, amount: int) -> u64 {
    if counter + amount > u64::MAX {
        u64::MAX
    } else {
        (counter + amount) as u64
    }
}

/// `value` moved into `low..=high`.
pub open spec fn clamped(value: int, low: int, high: int) -> int {
    if value < low {
        low
    } else if value > high {
        high
    } else {
        value
    }
}

/// The smaller of two numbers.
pub open spec fn least(left: int, right: int) -> int {
    if left < right {
        left
    } else {
        right
    }
}

/// The larger of two numbers.
pub open spec fn greatest(left: int, right: int) -> int {
    if left > right {
        left
    } else {
        right
    }
}

/// `value` moved into `low..=high`.
pub fn clamp_u32(value: u32, low: u32, high: u32) -> (result: u32)
    requires
        low <= high,
    ensures
        result == clamped(value as int, low as int, high as int),
{
    if value < low {
        low
    } else if value > high {
        high
    } else {
        value
    }
}

/// Product that stops at the largest `u64`.
pub fn multiply_u64(left: u64, right: u64) -> (product: u64)
    ensures
        product == least(left * right, u64::MAX as int),
{
    assert(left * right <= u64::MAX * u64::MAX) by (nonlinear_arith)
        requires
            left <= u64::MAX,
            right <= u64::MAX,
    ;
    assert(0 <= left * right) by (nonlinear_arith)
        requires
            0 <= left,
            0 <= right,
    ;
    let exact: u128 = left as u128 * right as u128;
    if exact > u64::MAX as u128 {
        u64::MAX
    } else {
        exact as u64
    }
}

/// Product that stops at the largest `u32`.
pub fn multiply_u32(left: u32, right: u32) -> (product: u32)
    ensures
        product == least(left * right, u32::MAX as int),
{
    assert(0 <= left * right <= u32::MAX * u32::MAX) by (nonlinear_arith)
        requires
            0 <= left <= u32::MAX,
            0 <= right <= u32::MAX,
    ;
    let exact: u64 = left as u64 * right as u64;
    if exact > u32::MAX as u64 {
        u32::MAX
    } else {
        exact as u32
    }
}

/// Distance between two numbers.
pub fn distance_u32(left: u32, right: u32) -> (result: u32)
    ensures
        result == (if left > right {
            left - right
        } else {
            right - left
        }),
{
    if left > right {
        left - right
    } else {
        right - left
    }
}

} // verus!
