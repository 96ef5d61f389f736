//! The one random primitive the simulation draws on.
//!
//! A seedable generator is passed into every randomized operation instead of a
//! thread-local one, so that callers (and tests) can reproduce exact runs.

use vstd::prelude::*;
use rand::Rng;

verus! {

#[verifier::external_type_specification]
#[verifier::external_body]
pub struct ExStdRng(rand::rngs::StdRng);

/// Relies on rand's `Rng::gen_range` over the half-open range `0..bound`:
/// the sample is uniform in `[0, bound)`, and the call panics only on an
/// empty range, which the precondition rules out.
#[verifier::external_body]
pub(crate) fn rng_below(rng: &mut rand::rngs::StdRng, bound: u64) -> (r: u64)
    requires
        bound > 0,
    ensures
        r < bound,
{
    rng.gen_range(0..bound)
}

} // verus!
