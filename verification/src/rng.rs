//! The random draws the game makes, taken from the `rand` crate.

use vstd::prelude::*;
use rand::seq::SliceRandom;
use rand::Rng;

verus! {

/// Handle to the thread-local random generator of `rand`.
#[verifier::external_type_specification]
#[verifier::external_body]
pub struct ExThreadRng(rand::rngs::ThreadRng);

/// Calls `rand::thread_rng`; nothing is claimed of the handle it returns.
#[verifier::external_body]
pub(crate) fn thread_rng() -> (rng: rand::rngs::ThreadRng) {
    rand::thread_rng()
}

/// Calls `SliceRandom::shuffle` on the vector's slice. Its source swaps
/// element `i` with a random element at or below `i`, for each `i` from the
/// top down, so the result is a permutation of the input: the contract claims
/// the same elements with the same multiplicities. Which order comes out is
/// left unsaid, as it rests on chance.
#[verifier::external_body]
pub(crate) fn shuffle(items: &mut Vec<usize>, rng: &mut rand::rngs::ThreadRng)
    ensures
        final(items)@.len() == old(items)@.len(),
        final(items)@.to_multiset() == old(items)@.to_multiset(),
{
    items.shuffle(rng)
}

/// Calls `Rng::gen_ratio`, which panics unless `0 < denominator` and
/// `numerator <= denominator`. Its documentation promises `true` when the two
/// are equal and `false` when the numerator is zero; otherwise the outcome is
/// left unsaid, as it rests on chance.
#[verifier::external_body]
pub(crate) fn gen_ratio(rng: &mut rand::rngs::ThreadRng, numerator: u32, denominator: u32) -> (b: bool)
    requires
        0 < denominator,
        numerator <= denominator,
    ensures
        numerator == denominator ==> b,
        numerator == 0 ==> !b,
{
    rng.gen_ratio(numerator, denominator)
}

/// Calls `Rng::gen_range` on the half-open range `low..high`, which panics on
/// an empty range. The value comes from the range; which one is left unsaid,
/// as it rests on chance.
#[verifier::external_body]
pub(crate) fn gen_range(rng: &mut rand::rngs::ThreadRng, low: u32, high: u32) -> (r: u32)
    requires
        low < high,
    ensures
        low <= r < high,
{
    rng.gen_range(low..high)
}

} // verus!
