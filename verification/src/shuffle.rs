//! The injectable source of word-order randomness.
//!
//! A `Shuffler` reorders a word list in place; every implementation must keep
//! exactly the same words (the new order holds the old contents as a
//! multiset). `ThreadShuffler` draws from the thread-local generator for real
//! play; `IdentityShuffler` leaves the order alone, for deterministic runs.

use vstd::prelude::*;
use rand::seq::SliceRandom;

verus! {

/// Reorders a word list in place without adding or dropping a word.
pub trait Shuffler {
    fn shuffle(&mut self, words: &mut Vec<String>)
        ensures
            final(words)@.to_multiset() == old(words)@.to_multiset(),
            final(words)@.len() == old(words)@.len(),
    ;
}

/// Shuffles with the thread-local random generator.
pub struct ThreadShuffler;

impl Shuffler for ThreadShuffler {
    fn shuffle(&mut self, words: &mut Vec<String>) {
        thread_shuffle(words);
    }
}

/// Relies on rand's `SliceRandom::shuffle`: a Fisher-Yates pass that swaps
/// elements of the slice in place, so the result is a permutation of the
/// input.
#[verifier::external_body]
fn thread_shuffle(words: &mut Vec<String>)
    ensures
        final(words)@.to_multiset() == old(words)@.to_multiset(),
        final(words)@.len() == old(words)@.len(),
{
    words.shuffle(&mut rand::thread_rng());
}

/// Keeps the order exactly as it is; stands in for the random source where a
/// run must be reproducible.
pub struct IdentityShuffler;

impl Shuffler for IdentityShuffler {
    fn shuffle(&mut self, words: &mut Vec<String>) {
    }
}

/// Picks a uniformly random index below `bound`.
///
/// Relies on rand's `Rng::gen_range`: on a non-empty range it returns a
/// sample within the range.
#[verifier::external_body]
pub(crate) fn rand_index(bound: usize) -> (r: usize)
    requires
        bound > 0,
    ensures
        r < bound,
{
    rand::Rng::gen_range(&mut rand::thread_rng(), 0..bound)
}

} // verus!
