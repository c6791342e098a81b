use vstd::prelude::*;

verus! {

#[verifier::external_type_specification]
#[verifier::external_body]
pub struct ExStdRng(rand::rngs::StdRng);

/// Relies on rand's SeedableRng::seed_from_u64: builds the standard
/// pseudo-random generator from a 64-bit seed, so a run can be reproduced
/// under a fixed seed.
#[verifier::external_body]
pub fn rng_from_seed(seed: u64) -> rand::rngs::StdRng {
    <rand::rngs::StdRng as rand::SeedableRng>::seed_from_u64(seed)
}

/// Relies on rand::make_rng: builds the standard generator freshly seeded
/// from the thread-local generator.
#[verifier::external_body]
pub fn rng_from_entropy() -> rand::rngs::StdRng {
    rand::make_rng::<rand::rngs::StdRng>()
}

/// Relies on rand's RngExt::random_range over a half-open range: the sample
/// lies uniformly in `lo..hi`. The call panics on an empty range, which the
/// precondition excludes.
#[verifier::external_body]
pub fn rand_range(rng: &mut rand::rngs::StdRng, lo: i32, hi: i32) -> (r: i32)
    requires
        lo < hi,
    ensures
        lo <= r < hi,
{
    rand::RngExt::random_range(rng, lo..hi)
}

} // verus!
