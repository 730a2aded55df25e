//! Overflow-aware byte arithmetic: the overflowing operations return the
//! wrapped result together with a flag that says whether wrapping happened.

use vstd::prelude::*;

verus! {

/// Adds two bytes, wrapping modulo 256, and reports whether the
/// mathematical sum was out of range.
pub fn overflowing_add_u8(x: u8, y: u8) -> (result: (u8, bool))
    ensures
        result.1 == (x + y > u8::MAX),
        result.0 == if x + y > u8::MAX {
            (x + y - 256) as u8
        } else {
            (x + y) as u8
        },
{
    if x <= u8::MAX - y {
        (x + y, false)
    } else {
        ((x - (u8::MAX - y)) - 1, true)
    }
}

/// Subtracts one byte from another, wrapping modulo 256, and reports
/// whether the mathematical difference was negative.
pub fn overflowing_sub_u8(x: u8, y: u8) -> (result: (u8, bool))
    ensures
        result.1 == (x < y),
        result.0 == if x < y {
            (x - y + 256) as u8
        } else {
            (x - y) as u8
        },
{
    if x >= y {
        (x - y, false)
    } else {
        ((u8::MAX - y) + x + 1, true)
    }
}

/// The overflowing operations at work: a subtraction that stays in range
/// keeps its exact result, and an addition that leaves the range comes back
/// wrapped, with the flag raised.
pub fn overflowed_arithmetic_methods() {
    let difference = overflowing_sub_u8(255, 2);
    assert(difference == (253u8, false));
    let sum = overflowing_add_u8(255, 2);
    assert(sum == (1u8, true));
}

} // verus!
