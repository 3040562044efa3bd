//! Trusted boundary to the `rand` crate: the fast, non-cryptographic RNG the
//! strategies draw from. The adversary model is "waste a scraper's time", so
//! nothing here needs cryptographic quality.

use vstd::prelude::*;
use rand::Rng;
use rand::distr::Alphanumeric;
use rand::distr::SampleString;
use rand::rngs::SmallRng;

verus! {

/// Declares rand's `SmallRng` so strategy signatures can carry the RNG
/// state; its insides stay opaque to the verifier.
#[verifier::external_type_specification]
#[verifier::external_body]
pub struct ExSmallRng(SmallRng);

/// Relies on rand's `Rng::random_range` over `0..n`: a uniformly drawn index
/// below `n`. The function panics only on an empty range, which the bound
/// rules out; nothing more can be promised of a random draw.
#[verifier::external_body]
pub(crate) fn rand_below(rng: &mut SmallRng, n: usize) -> (r: usize)
    requires
        n >= 1,
    ensures
        r < n,
{
    rng.random_range(0..n)
}

/// Relies on rand's `SampleString::sample_string` for `Alphanumeric`: it
/// appends exactly `len` bytes, each one sampled character from the
/// 62-character set `0-9A-Za-z`, one byte each.
#[verifier::external_body]
pub(crate) fn sample_alphanumeric(rng: &mut SmallRng, len: usize) -> (r: Vec<u8>)
    ensures
        r@.len() == len,
        forall|i: int|
            0 <= i < r@.len() ==> crate::generator::is_ascii_alphanumeric_byte(
                #[trigger] r@[i],
            ),
{
    Alphanumeric.sample_string(rng, len).into_bytes()
}

} // verus!
