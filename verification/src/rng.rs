use vstd::prelude::*;

verus! {

#[verifier::external_type_specification]
#[verifier::external_body]
pub struct ExStdRng(rand::rngs::StdRng);

/// An explicit source of randomness, owned by one generation task.  Replaying
/// the same seed against the same configuration reproduces the same batch.
pub struct RandomSource {
    rng: rand::rngs::StdRng,
}

/// Relies on rand's `SeedableRng::seed_from_u64` to build a deterministically
/// seeded generator.
#[verifier::external_body]
fn seeded_std_rng(seed: u64) -> rand::rngs::StdRng {
    rand::SeedableRng::seed_from_u64(seed)
}

impl RandomSource {
    pub fn from_seed(seed: u64) -> RandomSource {
        RandomSource { rng: seeded_std_rng(seed) }
    }

    /// Relies on rand's `Rng::gen_range`: the sample lies in the given
    /// half-open range, here `[0, bound)`.
    #[verifier::external_body]
    pub(crate) fn gen_below(&mut self, bound: u128) -> (r: u128)
        requires
            bound >= 1,
        ensures
            r < bound,
    {
        rand::Rng::gen_range(&mut self.rng, 0..bound)
    }
}

} // verus!
