//! The numeric primitive of the bridge.

use vstd::prelude::*;

verus! {

/// What `plus_100` adds to its input.
pub const INCREMENT: u32 = 100;

/// The value of `input + 100` in 32-bit unsigned arithmetic: the plain sum
/// where it fits, and the sum less 2^32 where it does not.
pub open spec fn wrapped_sum(input: u32) -> int {
    (input + INCREMENT) % 0x1_0000_0000
}

/// Adds one hundred to `input`.
///
/// The addition wraps around at the top of the `u32` range, so the function
/// is total: `plus_100(u32::MAX)` is `99`.
pub fn plus_100(input: u32) -> (sum: u32)
    ensures
        sum == wrapped_sum(input),
        input + 100 <= u32::MAX ==> sum == input + 100,
        input + 100 > u32::MAX ==> sum == input + 100 - 0x1_0000_0000,
{
    input.wrapping_add(INCREMENT)
}

} // verus!
