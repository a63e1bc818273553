//! Random numbers for question generation, drawn through the `rand` crate.

use rand::Rng;
use vstd::prelude::*;

verus! {

/// Relies on rand's `thread_rng` and `Rng::gen_range` over an inclusive
/// range: the drawn value lies within the bounds. An empty range panics,
/// so the bounds must be ordered.
#[verifier::external_body]
pub fn random_in_range_u32(lo: u32, hi: u32) -> (r: u32)
    requires
        lo <= hi,
    ensures
        lo <= r <= hi,
{
    rand::thread_rng().gen_range(lo..=hi)
}

/// Relies on rand's `thread_rng` and `Rng::gen_range` over an inclusive
/// range: the drawn value lies within the bounds. An empty range panics,
/// so the bounds must be ordered.
#[verifier::external_body]
pub fn random_in_range_i32(lo: i32, hi: i32) -> (r: i32)
    requires
        lo <= hi,
    ensures
        lo <= r <= hi,
{
    rand::thread_rng().gen_range(lo..=hi)
}

} // verus!
