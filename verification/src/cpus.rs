//! How many logical processors the process sees.

use vstd::prelude::*;

verus! {

/// The low 32 bits of `count`: what is left of a processor count once it
/// is carried in a `u32`.
pub open spec fn low_word(count: usize) -> int {
    count as int % 0x1_0000_0000
}

/// Asks `num_cpus::get` for the number of logical processors that the
/// process may run on.
///
/// Trusted: the count is at least one, as `num_cpus` documents of every
/// platform. The count itself is the operating system's answer, so nothing
/// more is claimed of it, and two calls need not agree.
#[verifier::external_body]
fn logical_cpus() -> (count: usize)
    ensures
        count >= 1,
{
    num_cpus::get()
}

/// Carries a processor count in a `u32`, keeping its low 32 bits.
///
/// A count that fits is kept as it is; in particular a count of at least
/// one that fits stays at least one.
pub fn narrow_count(count: usize) -> (cpus: u32)
    ensures
        cpus == low_word(count),
        count <= u32::MAX ==> cpus == count,
        1 <= count <= u32::MAX ==> cpus >= 1,
{
    let wide: u64 = count as u64;
    let low: u64 = wide % 0x1_0000_0000;
    low as u32
}

/// The number of logical processors visible to the process, as the
/// operating system reports it, carried in a `u32`.
///
/// The report is at least one; what is returned is its low 32 bits, which
/// is the report itself wherever it fits in a `u32`.
pub fn get_num_cpus() -> (cpus: u32)
    ensures
        exists|count: usize| count >= 1 && cpus == #[trigger] low_word(count),
{
    narrow_count(logical_cpus())
}

} // verus!
