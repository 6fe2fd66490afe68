//! The elapsing-duration primitive that drives a session's end.
//!
//! A `Countdown` starts `Idle`, is armed with a positive duration, and then
//! only ever counts down: `tick` subtracts elapsed seconds, clamped at zero.
//! When the remainder reaches zero the countdown is `Expired` and stays
//! there; further ticks change nothing.

use vstd::prelude::*;
use crate::error::ErrorKind;
use crate::calculators::MAX_DURATION_SECS;

verus! {

#[derive(Clone, Copy, Debug, PartialEq, Eq, Structural)]
pub enum CountdownState {
    Idle,
    Running,
    Expired,
}

pub struct Countdown {
    state: CountdownState,
    duration: u64,
    remaining: u64,
}

impl Countdown {
    pub closed spec fn state(&self) -> CountdownState {
        self.state
    }

    /// The configured duration, in seconds.
    pub closed spec fn duration(&self) -> u64 {
        self.duration
    }

    pub closed spec fn remaining_secs(&self) -> u64 {
        self.remaining
    }

    /// The remainder never exceeds the configured duration, an `Idle`
    /// countdown has not been armed, and `Expired` means exactly that the
    /// remainder has reached zero after arming.
    pub open spec fn wf(&self) -> bool {
        &&& self.remaining_secs() <= self.duration()
        &&& self.duration() < MAX_DURATION_SECS
        &&& (self.state() is Idle ==> self.remaining_secs() == self.duration())
        &&& (self.state() is Running ==> self.remaining_secs() > 0)
        &&& (self.state() is Expired ==> self.remaining_secs() == 0)
    }

    pub fn new() -> (r: Countdown)
        ensures
            r.wf(),
            r.state() is Idle,
            r.duration() == 0,
    {
        Countdown { state: CountdownState::Idle, duration: 0, remaining: 0 }
    }

    /// Arms the countdown: `Idle` becomes `Running` with the full duration
    /// remaining. Rejects a zero duration and any state but `Idle`.
    pub fn start(&mut self, duration: u64) -> (r: Result<(), ErrorKind>)
        requires
            old(self).wf(),
            duration < MAX_DURATION_SECS,
        ensures
            final(self).wf(),
            r is Ok <==> (old(self).state() is Idle && duration > 0),
            !(old(self).state() is Idle) ==> r == Result::<(), ErrorKind>::Err(
                ErrorKind::InvalidStateError,
            ),
            old(self).state() is Idle && duration == 0 ==> r == Result::<(), ErrorKind>::Err(
                ErrorKind::DomainError,
            ),
            r is Ok ==> {
                &&& final(self).state() is Running
                &&& final(self).duration() == duration
                &&& final(self).remaining_secs() == duration
            },
            r is Err ==> *final(self) == *old(self),
    {
        match self.state {
            CountdownState::Idle => {
                if duration == 0 {
                    Err(ErrorKind::DomainError)
                } else {
                    self.duration = duration;
                    self.remaining = duration;
                    self.state = CountdownState::Running;
                    Ok(())
                }
            },
            _ => Err(ErrorKind::InvalidStateError),
        }
    }

    /// Counts `elapsed` seconds down, clamped at zero; on reaching zero the
    /// state becomes `Expired`. The remainder never increases and never goes
    /// below zero, and once the countdown is `Expired` (or still `Idle`) a
    /// tick changes nothing.
    pub fn tick(&mut self, elapsed: u64)
        requires
            old(self).wf(),
        ensures
            final(self).wf(),
            final(self).duration() == old(self).duration(),
            final(self).remaining_secs() <= old(self).remaining_secs(),
            !(old(self).state() is Running) ==> *final(self) == *old(self),
            old(self).state() is Running ==> {
                &&& final(self).remaining_secs() == if elapsed
                    <= old(self).remaining_secs() {
                    (old(self).remaining_secs() - elapsed) as int
                } else {
                    0
                }
                &&& (final(self).state() is Expired <==> final(self).remaining_secs() == 0)
                &&& (final(self).state() is Running <==> final(self).remaining_secs() > 0)
            },
    {
        match self.state {
            CountdownState::Running => {
                if elapsed < self.remaining {
                    self.remaining = self.remaining - elapsed;
                } else {
                    self.remaining = 0;
                    self.state = CountdownState::Expired;
                }
            },
            _ => {},
        }
    }

    /// The seconds left; readable in any state.
    pub fn remaining(&self) -> (r: u64)
        ensures
            r == self.remaining_secs(),
    {
        self.remaining
    }

    pub fn current_state(&self) -> (r: CountdownState)
        ensures
            r == self.state(),
    {
        self.state
    }

    pub fn configured_duration(&self) -> (r: u64)
        ensures
            r == self.duration(),
    {
        self.duration
    }
}

} // verus!
