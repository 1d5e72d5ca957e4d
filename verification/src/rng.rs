use vstd::prelude::*;
use rand::Rng;
use rand::SeedableRng;

verus! {

/// The random source that draws a grid's starting generation. Declared so
/// that verified code can pass it along; its inner state stays opaque.
#[verifier::external_type_specification]
#[verifier::external_body]
pub struct ExStdRng(rand::rngs::StdRng);

/// Relies on rand's `StdRng::seed_from_u64`: builds a generator from a
/// seed. Nothing is promised of the values it will hand out.
#[verifier::external_body]
pub fn rng_from_seed(seed: u64) -> rand::rngs::StdRng {
    rand::rngs::StdRng::seed_from_u64(seed)
}

/// Relies on rand's `Rng::random::<bool>`: draws alive or dead with equal
/// probability. Nothing is promised of the outcome; callers must accept
/// either result.
#[verifier::external_body]
pub fn random_cell(rng: &mut rand::rngs::StdRng) -> bool {
    rng.random::<bool>()
}

} // verus!
