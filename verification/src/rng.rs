//! Random draws for generation, taken from the `rand` crate's seeded
//! standard generator behind trusted declarations. Nothing is assumed about
//! which values come out beyond the documented ranges, so everything built
//! on these draws is verified for every possible outcome.

use vstd::prelude::*;

verus! {

#[verifier::external_type_specification]
#[verifier::external_body]
pub struct ExStdRng(rand::rngs::StdRng);

/// Relies on rand::SeedableRng::seed_from_u64: builds a generator whose
/// draw stream is a function of the seed.
#[verifier::external_body]
pub(crate) fn rng_from_seed(seed: u64) -> rand::rngs::StdRng {
    <rand::rngs::StdRng as rand::SeedableRng>::seed_from_u64(seed)
}

/// Relies on rand::Rng::gen_range on a half-open `i32` range: it panics only
/// on an empty range, and samples a value inside the range.
#[verifier::external_body]
pub(crate) fn gen_range_i32(rng: &mut rand::rngs::StdRng, low: i32, high: i32) -> (r: i32)
    requires
        low < high,
    ensures
        low <= r < high,
{
    rand::Rng::gen_range(rng, low..high)
}

/// Relies on rand::Rng::gen_ratio: true with probability `numerator` in
/// `denominator`; it panics only when the denominator is zero or smaller
/// than the numerator, always holds when the two are equal, and never holds
/// when the numerator is zero.
#[verifier::external_body]
pub(crate) fn gen_ratio(rng: &mut rand::rngs::StdRng, numerator: u32, denominator: u32) -> (r:
    bool)
    requires
        0 < denominator,
        numerator <= denominator,
    ensures
        numerator == denominator ==> r,
        numerator == 0 ==> !r,
{
    rand::Rng::gen_ratio(rng, numerator, denominator)
}

} // verus!
