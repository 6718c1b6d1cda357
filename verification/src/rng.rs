//! The crate's only source of randomness. Nothing is promised about the
//! distribution of a draw, only its range, so every contract that depends on
//! a draw states what holds for each possible value.

use vstd::prelude::*;

verus! {

/// Relies on `rand::Rng::gen_range` over the range `0..n`: the result is a
/// uniformly sampled value below `n`; only the range is relied on.
#[verifier::external_body]
pub(crate) fn rng_below(n: u64) -> (r: u64)
    requires
        n > 0,
    ensures
        r < n,
{
    rand::Rng::gen_range(&mut rand::thread_rng(), 0..n)
}

} // verus!
