//! The source of the random draws of the simulation.
use vstd::prelude::*;
use rand::rngs::StdRng;
use rand::Rng;
use rand::SeedableRng;

verus! {

/// `rand::rngs::StdRng`, of which nothing is known but that it is handed
/// to the functions below.
#[verifier::external_type_specification]
#[verifier::external_body]
pub struct ExStdRng(StdRng);

/// `rand::SeedableRng::seed_from_u64` for `StdRng`: a generator made from
/// `seed`. Nothing is claimed of the generator.
#[verifier::external_body]
fn seed_from_u64(seed: u64) -> (rng: StdRng) {
    StdRng::seed_from_u64(seed)
}

/// `rand::Rng::gen_range` on a half-open range of `i32`, which panics on an
/// empty range: the number drawn lies in the range.
#[verifier::external_body]
fn gen_range(rng: &mut StdRng, low: i32, high: i32) -> (r: i32)
    requires
        low < high,
    ensures
        low <= r < high,
{
    rng.gen_range(low..high)
}

/// `rand::Rng::gen_ratio`, which panics on a zero denominator and on a
/// numerator above the denominator: a ratio of one always gives `true`, a
/// ratio of zero always gives `false`.
#[verifier::external_body]
fn gen_ratio(rng: &mut StdRng, numerator: u32, denominator: u32) -> (r: bool)
    requires
        denominator > 0,
        numerator <= denominator,
    ensures
        numerator == denominator ==> r,
        numerator == 0 ==> !r,
{
    rng.gen_ratio(numerator, denominator)
}

/// A seeded generator: the same seed gives the same run.
pub struct RandomSource {
    rng: StdRng,
}

impl RandomSource {
    pub fn from_seed(seed: u64) -> (source: Self) {
        RandomSource { rng: seed_from_u64(seed) }
    }

    /// Draws from `low..high`.
    pub fn range(&mut self, low: i32, high: i32) -> (r: i32)
        requires
            low < high,
        ensures
            low <= r < high,
    {
        gen_range(&mut self.rng, low, high)
    }

    /// Draws `true` with probability `numerator / denominator`.
    pub fn ratio(&mut self, numerator: u32, denominator: u32) -> (r: bool)
        requires
            denominator > 0,
            numerator <= denominator,
        ensures
            numerator == denominator ==> r,
            numerator == 0 ==> !r,
    {
        gen_ratio(&mut self.rng, numerator, denominator)
    }
}

} // verus!
