//! Fallible narrowing of integers: a wide value is clamped into the narrow
//! type's range instead of being silently truncated.

use vstd::prelude::*;

verus! {

/// Narrows a 64-bit integer to 32 bits, clamping values outside the range
/// to the nearest representable bound.
pub fn clamp_to_i32(value: i64) -> (result: i32)
    ensures
        value > i32::MAX ==> result == i32::MAX,
        value < i32::MIN ==> result == i32::MIN,
        i32::MIN <= value <= i32::MAX ==> result == value,
{
    if value > i32::MAX as i64 {
        i32::MAX
    } else if value < i32::MIN as i64 {
        i32::MIN
    } else {
        value as i32
    }
}

/// A narrowing that cannot fit keeps the nearest bound; one that fits keeps
/// its value.
fn use_try_from_into() {
    let huge: i64 = 2_000_000_000_000;
    let clamped = clamp_to_i32(huge);
    assert(clamped == i32::MAX);
    let negative: i64 = -2_000_000_000_000;
    let clamped_low = clamp_to_i32(negative);
    assert(clamped_low == i32::MIN);
    let small: i64 = -7;
    let kept = clamp_to_i32(small);
    assert(kept == -7);
}

/// The conversion utilities at work.
pub fn use_utility_traits() {
    use_try_from_into();
}

} // verus!
