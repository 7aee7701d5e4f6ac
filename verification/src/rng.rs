//! Randomness for procedural generation.
use vstd::prelude::*;

verus! {

/// Relies on rand's `Rng::gen_range` over the thread-local generator: on a
/// non-empty exclusive integer range it returns a value inside the range
/// (it panics only on an empty one, which the bound below rules out).
/// Nothing more is assumed of a random draw.
#[verifier::external_body]
pub(crate) fn random_in_range(lo: u32, hi: u32) -> (r: u32)
    requires
        lo < hi,
    ensures
        lo <= r < hi,
{
    rand::Rng::gen_range(&mut rand::thread_rng(), lo..hi)
}

} // verus!
