//! The randomness source: a seeded generator from the `rand` crate.
use vstd::prelude::*;
use rand::rngs::StdRng;
use rand::seq::SliceRandom;
use rand::{Rng, SeedableRng};
use crate::cards::Card;

verus! {

#[verifier::external_type_specification]
#[verifier::external_body]
pub struct ExStdRng(rand::rngs::StdRng);

/// Relies on `rand::SeedableRng::seed_from_u64` to build a generator from a
/// seed; nothing is claimed of its state.
#[verifier::external_body]
pub(crate) fn rng_from_seed(seed: u64) -> StdRng {
    StdRng::seed_from_u64(seed)
}

/// Relies on `rand::Rng::gen` to derive a new seed from the generator's
/// state; any value may come back.
#[verifier::external_body]
pub(crate) fn derive_seed(rng: &mut StdRng) -> u64 {
    rng.gen::<u64>()
}

/// Relies on `rand::Rng::gen_range`, which returns a value of the half-open
/// range and panics on an empty one.
#[verifier::external_body]
pub(crate) fn pick_index(rng: &mut StdRng, len: usize) -> (r: usize)
    requires
        len > 0,
    ensures
        r < len,
{
    rng.gen_range(0..len)
}

/// Relies on `rand::seq::SliceRandom::shuffle`, which only swaps elements
/// of the slice: the result is a permutation of the input.
#[verifier::external_body]
pub(crate) fn shuffle_cards(rng: &mut StdRng, cards: &mut Vec<Card>)
    ensures
        final(cards)@.len() == old(cards)@.len(),
        final(cards)@.to_multiset() == old(cards)@.to_multiset(),
{
    cards.shuffle(rng)
}

} // verus!
