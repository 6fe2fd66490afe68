//! The typing-session state machine.
//!
//! A session wires the word queue, the countdown and the keystroke input
//! into two character counters, and on expiry produces at most one score
//! record. Its life is linear: `NotStarted`, then `Running` after `start`,
//! then `End` when the countdown expires; a finished session is frozen,
//! and a new one is built to play again.

use vstd::prelude::*;
use vstd::string::StrSliceExecFns;
use crate::calculators::MAX_DURATION_SECS;
use crate::calculators::calculate_accuracy;
use crate::calculators::calculate_awpm;
use crate::calculators::calculate_wpm;
use crate::calculators::spec_accuracy_milli;
use crate::calculators::spec_awpm_milli;
use crate::calculators::spec_wpm_milli;
use crate::error::ErrorKind;
use crate::loader::is_space;
use crate::loader::spec_is_space;
use crate::record::WpmResult;
use crate::shuffle::Shuffler;
use crate::timer::Countdown;
use crate::timer::CountdownState;
use crate::words::WordQueue;
use crate::words::spec_rotated;

verus! {

/// Where a session stands in its life.
#[derive(Clone, Copy, Debug, PartialEq, Eq, Structural)]
pub enum TypingTestState {
    NotStarted,
    Running,
    End,
}

/// Each of the two counters saturates here; together they stay within what
/// the scoring formulas accept.
pub const COUNT_CAP: u64 = 1_000_000_000;

/// What a finished session's outcome must be: no record when nothing was
/// typed, otherwise a record carrying exactly the formulas' values over the
/// configured duration.
pub open spec fn spec_outcome_matches(
    correct: u64,
    incorrect: u64,
    secs: u64,
    outcome: Option<WpmResult>,
) -> bool {
    let chars = correct + incorrect;
    if chars == 0 {
        outcome is None
    } else {
        match outcome {
            Option::Some(rec) => {
                &&& rec.wf()
                &&& rec.wpm_milli == spec_wpm_milli(chars as nat, secs as nat)
                &&& rec.accuracy_milli == spec_accuracy_milli(chars as nat, correct as nat)
                &&& rec.duration_milli == secs * 1000
                &&& rec.awpm_milli == spec_awpm_milli(correct as nat, secs as nat)
            },
            Option::None => false,
        }
    }
}

pub struct TypingSession {
    state: TypingTestState,
    buffer: Vec<char>,
    correct_count: u64,
    incorrect_count: u64,
    countdown: Countdown,
    queue: WordQueue,
    outcome: Option<WpmResult>,
}

impl TypingSession {
    pub closed spec fn state(&self) -> TypingTestState {
        self.state
    }

    /// The in-progress input buffer.
    pub closed spec fn buffer(&self) -> Seq<char> {
        self.buffer@
    }

    pub closed spec fn correct(&self) -> u64 {
        self.correct_count
    }

    pub closed spec fn incorrect(&self) -> u64 {
        self.incorrect_count
    }

    pub closed spec fn timer(&self) -> Countdown {
        self.countdown
    }

    /// The words of the supply, front first.
    pub closed spec fn queue_words(&self) -> Seq<String> {
        self.queue.words()
    }

    /// The record of a finished session, if the scores could be computed.
    pub closed spec fn outcome(&self) -> Option<WpmResult> {
        self.outcome
    }

    pub open spec fn wf(&self) -> bool {
        &&& self.queue_words().len() > 0
        &&& self.correct() <= COUNT_CAP
        &&& self.incorrect() <= COUNT_CAP
        &&& self.timer().wf()
        &&& (self.state() is NotStarted ==> self.timer().state() is Idle)
        &&& (self.state() is Running ==> self.timer().state() is Running)
        &&& (self.state() is End ==> self.timer().state() is Expired)
    }

    /// Builds a fresh session over a vocabulary, randomizing the word order
    /// with the given source. Fails exactly on an empty vocabulary.
    pub fn new<S: Shuffler>(vocabulary: Vec<String>, source: &mut S) -> (r: Result<
        TypingSession,
        ErrorKind,
    >)
        ensures
            vocabulary@.len() == 0 <==> r is Err,
            r is Err ==> r->Err_0 == ErrorKind::ConfigError,
            r is Ok ==> {
                &&& r->Ok_0.wf()
                &&& r->Ok_0.state() is NotStarted
                &&& r->Ok_0.buffer().len() == 0
                &&& r->Ok_0.correct() == 0
                &&& r->Ok_0.incorrect() == 0
                &&& r->Ok_0.outcome() is None
                &&& r->Ok_0.queue_words().to_multiset() == vocabulary@.to_multiset()
                &&& r->Ok_0.queue_words().len() == vocabulary@.len()
            },
    {
        let queue = match WordQueue::new(vocabulary, source) {
            Err(e) => {
                return Err(e);
            },
            Ok(q) => q,
        };
        Ok(
            TypingSession {
                state: TypingTestState::NotStarted,
                buffer: Vec::new(),
                correct_count: 0,
                incorrect_count: 0,
                countdown: Countdown::new(),
                queue,
                outcome: None,
            },
        )
    }

    /// Starts the one run of this session: reshuffles the supply, arms the
    /// countdown, clears the counters and the buffer. Valid only before the
    /// first start, and only with a positive duration.
    pub fn start<S: Shuffler>(&mut self, duration_secs: u64, source: &mut S) -> (r: Result<
        (),
        ErrorKind,
    >)
        requires
            old(self).wf(),
            duration_secs < MAX_DURATION_SECS,
        ensures
            final(self).wf(),
            r is Ok <==> (old(self).state() is NotStarted && duration_secs > 0),
            !(old(self).state() is NotStarted) ==> r == Result::<(), ErrorKind>::Err(
                ErrorKind::InvalidStateError,
            ) && *final(self) == *old(self),
            old(self).state() is NotStarted && duration_secs == 0 ==> r == Result::<
                (),
                ErrorKind,
            >::Err(ErrorKind::DomainError) && *final(self) == *old(self),
            r is Ok ==> {
                &&& final(self).state() is Running
                &&& final(self).buffer().len() == 0
                &&& final(self).correct() == 0
                &&& final(self).incorrect() == 0
                &&& final(self).outcome() is None
                &&& final(self).timer().state() is Running
                &&& final(self).timer().duration() == duration_secs
                &&& final(self).timer().remaining_secs() == duration_secs
                &&& final(self).queue_words().to_multiset() == old(
                    self,
                ).queue_words().to_multiset()
                &&& final(self).queue_words().len() == old(self).queue_words().len()
            },
    {
        match self.state {
            TypingTestState::NotStarted => {
                if duration_secs == 0 {
                    return Err(ErrorKind::DomainError);
                }
                self.queue.reshuffle(source);
                match self.countdown.start(duration_secs) {
                    Ok(_) => {},
                    Err(_) => {},
                }
                self.buffer = Vec::new();
                self.correct_count = 0;
                self.incorrect_count = 0;
                self.outcome = None;
                self.state = TypingTestState::Running;
                Ok(())
            },
            _ => Err(ErrorKind::InvalidStateError),
        }
    }

    /// Feeds one typed character. Whitespace abandons the current attempt
    /// (the buffer is cleared, nothing is judged); any other character joins
    /// the buffer. Rejected outside `Running`, leaving the session as it is.
    pub fn type_character(&mut self, c: char) -> (r: Result<(), ErrorKind>)
        requires
            old(self).wf(),
        ensures
            final(self).wf(),
            r is Ok <==> old(self).state() is Running,
            !(old(self).state() is Running) ==> r == Result::<(), ErrorKind>::Err(
                ErrorKind::InvalidStateError,
            ) && *final(self) == *old(self),
            old(self).state() is Running ==> {
                &&& final(self).buffer() == if spec_is_space(c) {
                    Seq::<char>::empty()
                } else {
                    old(self).buffer().push(c)
                }
                &&& final(self).state() == old(self).state()
                &&& final(self).correct() == old(self).correct()
                &&& final(self).incorrect() == old(self).incorrect()
                &&& final(self).queue_words() == old(self).queue_words()
                &&& final(self).timer() == old(self).timer()
                &&& final(self).outcome() == old(self).outcome()
            },
    {
        match self.state {
            TypingTestState::Running => {
                if is_space(c) {
                    self.buffer = Vec::new();
                } else {
                    self.buffer.push(c);
                }
                Ok(())
            },
            _ => Err(ErrorKind::InvalidStateError),
        }
    }

    /// Submits the buffer as the judged attempt for the current word: the
    /// word moves to the back of the supply, the matching counter grows by
    /// the word's character length (saturating at `COUNT_CAP`), and the
    /// buffer is cleared. Returns whether the attempt matched. Rejected
    /// outside `Running`, leaving the session as it is.
    pub fn backspace_commit(&mut self) -> (r: Result<bool, ErrorKind>)
        requires
            old(self).wf(),
        ensures
            final(self).wf(),
            r is Ok <==> old(self).state() is Running,
            !(old(self).state() is Running) ==> r == Result::<bool, ErrorKind>::Err(
                ErrorKind::InvalidStateError,
            ) && *final(self) == *old(self),
            old(self).state() is Running ==> {
                let word_len = old(self).queue_words()[0]@.len();
                let matched = old(self).buffer() == old(self).queue_words()[0]@;
                &&& r == Result::<bool, ErrorKind>::Ok(matched)
                &&& final(self).queue_words() == spec_rotated(old(self).queue_words())
                &&& final(self).queue_words().len() == old(self).queue_words().len()
                &&& final(self).buffer().len() == 0
                &&& final(self).correct() == if matched {
                    if old(self).correct() + word_len <= COUNT_CAP {
                        old(self).correct() + word_len
                    } else {
                        COUNT_CAP as int
                    }
                } else {
                    old(self).correct() as int
                }
                &&& final(self).incorrect() == if !matched {
                    if old(self).incorrect() + word_len <= COUNT_CAP {
                        old(self).incorrect() + word_len
                    } else {
                        COUNT_CAP as int
                    }
                } else {
                    old(self).incorrect() as int
                }
                &&& final(self).state() == old(self).state()
                &&& final(self).timer() == old(self).timer()
                &&& final(self).outcome() == old(self).outcome()
            },
    {
        match self.state {
            TypingTestState::Running => {
                let word_len = word_char_len(self.queue.current());
                let matched = buffer_matches(&self.buffer, self.queue.current());
                self.queue.rotate();
                if matched {
                    self.correct_count = saturate_to_cap(self.correct_count, word_len);
                } else {
                    self.incorrect_count = saturate_to_cap(self.incorrect_count, word_len);
                }
                self.buffer = Vec::new();
                Ok(matched)
            },
            _ => Err(ErrorKind::InvalidStateError),
        }
    }

    /// Advances the countdown. When it expires the session is over:
    /// the state becomes `End`, the counters freeze, and the final score
    /// record is computed over the configured duration — unless nothing was
    /// typed, in which case no record is produced. Does nothing outside
    /// `Running`.
    pub fn on_tick(&mut self, elapsed: u64)
        requires
            old(self).wf(),
        ensures
            final(self).wf(),
            !(old(self).state() is Running) ==> *final(self) == *old(self),
            old(self).state() is Running ==> {
                &&& final(self).correct() == old(self).correct()
                &&& final(self).incorrect() == old(self).incorrect()
                &&& final(self).buffer() == old(self).buffer()
                &&& final(self).queue_words() == old(self).queue_words()
                &&& final(self).timer().duration() == old(self).timer().duration()
                &&& final(self).timer().remaining_secs() == if elapsed <= old(
                    self,
                ).timer().remaining_secs() {
                    (old(self).timer().remaining_secs() - elapsed) as int
                } else {
                    0
                }
                &&& (final(self).state() is End <==> final(self).timer().remaining_secs() == 0)
                &&& (final(self).state() is Running <==> final(self).timer().remaining_secs() > 0)
                &&& (final(self).state() is Running ==> final(self).outcome() == old(
                    self,
                ).outcome())
                &&& (final(self).state() is End ==> spec_outcome_matches(
                    old(self).correct(),
                    old(self).incorrect(),
                    old(self).timer().duration(),
                    final(self).outcome(),
                ))
            },
    {
        match self.state {
            TypingTestState::Running => {
                self.countdown.tick(elapsed);
                match self.countdown.current_state() {
                    CountdownState::Expired => {
                        self.state = TypingTestState::End;
                        self.finalize();
                    },
                    _ => {},
                }
            },
            _ => {},
        }
    }

    /// Computes the final record from the frozen counters over the
    /// configured duration.
    fn finalize(&mut self)
        requires
            old(self).wf(),
            old(self).timer().state() is Expired,
            old(self).timer().duration() > 0,
        ensures
            final(self).state() == old(self).state(),
            final(self).buffer() == old(self).buffer(),
            final(self).correct() == old(self).correct(),
            final(self).incorrect() == old(self).incorrect(),
            final(self).queue_words() == old(self).queue_words(),
            final(self).timer() == old(self).timer(),
            spec_outcome_matches(
                old(self).correct(),
                old(self).incorrect(),
                old(self).timer().duration(),
                final(self).outcome(),
            ),
    {
        let chars = self.correct_count + self.incorrect_count;
        let secs = self.countdown.configured_duration();
        proof {
            assert(12000 * (chars as int) / (secs as int) <= 12000 * (chars as int))
                by (nonlinear_arith)
                requires
                    secs >= 1,
            ;
            assert(12000 * (self.correct_count as int) / (secs as int) <= 12000 * (
            self.correct_count as int)) by (nonlinear_arith)
                requires
                    secs >= 1,
            ;
        }
        let wpm = match calculate_wpm(chars, secs) {
            Ok(v) => v,
            Err(_) => {
                self.outcome = None;
                return ;
            },
        };
        let acc = match calculate_accuracy(chars, self.correct_count) {
            Ok(v) => v,
            Err(_) => {
                self.outcome = None;
                return ;
            },
        };
        let awpm = match calculate_awpm(chars, secs, self.correct_count) {
            Ok(v) => v,
            Err(_) => {
                self.outcome = None;
                return ;
            },
        };
        self.outcome = Some(WpmResult::new(wpm, acc, secs * 1000, awpm));
    }

    /// The word the typist is attempting.
    pub fn current_word(&self) -> (w: &String)
        requires
            self.wf(),
        ensures
            *w == self.queue_words()[0],
    {
        self.queue.current()
    }

    /// The word at position `i` of the supply, front being `0`.
    pub fn queue_word_at(&self, i: usize) -> (w: &String)
        requires
            i < self.queue_words().len(),
        ensures
            *w == self.queue_words()[i as int],
    {
        self.queue.word_at(i)
    }

    pub fn queue_len(&self) -> (n: usize)
        ensures
            n == self.queue_words().len(),
    {
        self.queue.len()
    }

    pub fn session_state(&self) -> (r: TypingTestState)
        ensures
            r == self.state(),
    {
        self.state
    }

    /// The in-progress buffer, for rendering.
    pub fn buffer_chars(&self) -> (r: &Vec<char>)
        ensures
            r@ == self.buffer(),
    {
        &self.buffer
    }

    pub fn correct_count(&self) -> (r: u64)
        ensures
            r == self.correct(),
    {
        self.correct_count
    }

    pub fn incorrect_count(&self) -> (r: u64)
        ensures
            r == self.incorrect(),
    {
        self.incorrect_count
    }

    /// Seconds left on the countdown.
    pub fn remaining(&self) -> (r: u64)
        ensures
            r == self.timer().remaining_secs(),
    {
        self.countdown.remaining()
    }

    /// The record of a finished session, if one was produced.
    pub fn result(&self) -> (r: Option<WpmResult>)
        ensures
            r == self.outcome(),
    {
        self.outcome
    }
}

/// Adds `add` to `count`, stopping at the cap.
fn saturate_to_cap(count: u64, add: u64) -> (r: u64)
    requires
        count <= COUNT_CAP,
    ensures
        r == if count + add <= COUNT_CAP {
            count + add
        } else {
            COUNT_CAP as int
        },
        r <= COUNT_CAP,
{
    if add <= COUNT_CAP - count {
        count + add
    } else {
        COUNT_CAP
    }
}

/// The character length of a word.
fn word_char_len(word: &String) -> (r: u64)
    ensures
        r == word@.len(),
{
    let n = word.as_str().unicode_len();
    n as u64
}

/// Whether the typed buffer spells exactly the word.
fn buffer_matches(buffer: &Vec<char>, word: &String) -> (r: bool)
    ensures
        r == (buffer@ == word@),
{
    let s = word.as_str();
    let n = s.unicode_len();
    if buffer.len() != n {
        proof {
            assert(buffer@ != word@);
        }
        return false;
    }
    let mut k: usize = 0;
    while k < n
        invariant
            k <= n,
            n == s@.len(),
            s@ == word@,
            n == buffer@.len(),
            forall|t: int| 0 <= t < k ==> buffer@[t] == word@[t],
        decreases n - k,
    {
        if buffer[k] != s.get_char(k) {
            return false;
        }
        k = k + 1;
    }
    proof {
        assert(buffer@ =~= word@);
    }
    true
}

} // verus!
