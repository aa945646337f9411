//! The trusted boundary to the random number generator. Exploration, table
//! initialization and episode resets draw from an explicitly injected,
//! seedable generator, so runs are reproducible.

use vstd::prelude::*;

verus! {

/// rand's seedable standard generator, carried opaquely through the engine.
#[verifier::external_type_specification]
#[verifier::external_body]
pub struct ExStdRng(rand::rngs::StdRng);

/// Relies on rand's `Rng::gen_range` over `0..bound`: a draw strictly below
/// `bound`. `gen_range` panics only on an empty range, which the
/// precondition rules out; nothing more is assumed of the value drawn.
#[verifier::external_body]
pub(crate) fn rng_below(rng: &mut rand::rngs::StdRng, bound: usize) -> (r: usize)
    requires
        1 <= bound,
    ensures
        r < bound,
{
    rand::Rng::gen_range(rng, 0..bound)
}

} // verus!
