//! The cyclic word supply.
//!
//! A `WordQueue` holds the practice words in order. Judging a word never
//! discards it: `commit` moves the front word to the back, so the supply
//! repeats cyclically and its length never changes. A queue is never empty
//! once constructed.

use vstd::prelude::*;
use crate::error::ErrorKind;
use crate::shuffle::Shuffler;

verus! {

pub struct WordQueue {
    words: Vec<String>,
}

/// One cycling step: the front word moves to the back.
pub open spec fn spec_rotated(ws: Seq<String>) -> Seq<String>
    recommends
        ws.len() > 0,
{
    ws.drop_first().push(ws[0])
}

/// `n` successive cycling steps.
pub open spec fn spec_rotated_n(ws: Seq<String>, n: nat) -> Seq<String>
    decreases n,
{
    if n == 0 {
        ws
    } else {
        spec_rotated(spec_rotated_n(ws, (n - 1) as nat))
    }
}

/// The queue-length invariant: however many words are committed in
/// succession, the supply keeps exactly its original length.
pub proof fn lemma_commits_preserve_length(ws: Seq<String>, n: nat)
    requires
        ws.len() > 0,
    ensures
        spec_rotated_n(ws, n).len() == ws.len(),
    decreases n,
{
    if n > 0 {
        lemma_commits_preserve_length(ws, (n - 1) as nat);
    }
}

impl WordQueue {
    /// The words in queue order, front first.
    pub closed spec fn words(&self) -> Seq<String> {
        self.words@
    }

    pub open spec fn wf(&self) -> bool {
        self.words().len() > 0
    }

    /// Builds a queue from a vocabulary and randomizes its order with the
    /// given source. Fails exactly on an empty vocabulary.
    pub fn new<S: Shuffler>(vocabulary: Vec<String>, source: &mut S) -> (r: Result<
        WordQueue,
        ErrorKind,
    >)
        ensures
            vocabulary@.len() == 0 <==> r is Err,
            r is Err ==> r->Err_0 == ErrorKind::ConfigError,
            r is Ok ==> {
                &&& r->Ok_0.wf()
                &&& r->Ok_0.words().to_multiset() == vocabulary@.to_multiset()
                &&& r->Ok_0.words().len() == vocabulary@.len()
            },
    {
        if vocabulary.len() == 0 {
            Err(ErrorKind::ConfigError)
        } else {
            let mut words = vocabulary;
            source.shuffle(&mut words);
            Ok(WordQueue { words })
        }
    }

    pub fn len(&self) -> (n: usize)
        ensures
            n == self.words().len(),
    {
        self.words.len()
    }

    /// The word at position `i`, front being `0`.
    pub fn word_at(&self, i: usize) -> (w: &String)
        requires
            i < self.words().len(),
        ensures
            *w == self.words()[i as int],
    {
        &self.words[i]
    }

    /// The front word, the one the typist is attempting. Never fails on a
    /// well-formed queue.
    pub fn current(&self) -> (w: &String)
        requires
            self.wf(),
        ensures
            *w == self.words()[0],
    {
        &self.words[0]
    }

    /// Re-randomizes the order in place; the contents and the length stay.
    pub fn reshuffle<S: Shuffler>(&mut self, source: &mut S)
        ensures
            final(self).words().to_multiset() == old(self).words().to_multiset(),
            final(self).words().len() == old(self).words().len(),
    {
        source.shuffle(&mut self.words);
    }

    /// Moves the front word to the back of the supply, judging nothing.
    /// The length never changes.
    pub fn rotate(&mut self)
        requires
            old(self).wf(),
        ensures
            final(self).wf(),
            final(self).words() == spec_rotated(old(self).words()),
            final(self).words().len() == old(self).words().len(),
    {
        let front = self.words.remove(0);
        self.words.push(front);
        proof {
            assert(self.words@ =~= spec_rotated(old(self).words()));
        }
    }

    /// Judges `typed` against the front word, moves that word to the back,
    /// and reports whether the attempt matched it exactly. The length never
    /// changes.
    pub fn commit(&mut self, typed: &String) -> (correct: bool)
        requires
            old(self).wf(),
        ensures
            final(self).wf(),
            final(self).words() == spec_rotated(old(self).words()),
            final(self).words().len() == old(self).words().len(),
            correct == (typed@ == old(self).words()[0]@),
    {
        let front = self.words.remove(0);
        let correct = *typed == front;
        self.words.push(front);
        proof {
            assert(self.words@ =~= spec_rotated(old(self).words()));
        }
        correct
    }
}

} // verus!
