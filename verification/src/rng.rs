//! Random sources for the agents.
//!
//! Every worker carries its own explicitly seeded generator, so runs are
//! reproducible and no hidden global random state is shared between agents.

use vstd::prelude::*;

verus! {

#[verifier::external_type_specification]
#[verifier::external_body]
pub struct ExStdRng(rand::rngs::StdRng);

/// Relies on rand's `SeedableRng::seed_from_u64` for `StdRng`: builds a
/// generator from a 64-bit seed. Nothing is assumed of the values it will
/// produce.
#[verifier::external_body]
pub(crate) fn rng_from_seed(seed: u64) -> (rng: rand::rngs::StdRng) {
    <rand::rngs::StdRng as rand::SeedableRng>::seed_from_u64(seed)
}

/// Relies on rand's `Rng::gen_range` on the range `0..bound`: returns a value
/// drawn uniformly from that range, so the result is below `bound`. The call
/// panics only on an empty range, which the precondition rules out.
#[verifier::external_body]
pub(crate) fn rng_below(rng: &mut rand::rngs::StdRng, bound: u64) -> (r: u64)
    requires
        1 <= bound,
    ensures
        r < bound,
{
    rand::Rng::gen_range(rng, 0..bound)
}

} // verus!
