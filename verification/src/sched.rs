//! A cooperative task that yields exactly once.
//!
//! The first poll suspends the task and asks the runner to schedule one
//! wake-up; every later poll finds it ready. The runner around the library
//! performs the actual wake.

use vstd::prelude::*;

verus! {

/// What one poll step asks of the runner.
#[derive(Clone, Copy, PartialEq, Eq, Structural, Debug)]
pub enum PollOutcome {
    /// The task suspended; schedule one wake-up and poll again.
    Pending,
    /// The task is done.
    Ready,
}

/// A task that suspends at its first poll and resumes ready.
pub struct YieldOnce {
    pub yielded: bool,
}

impl YieldOnce {
    /// A task that has not yielded yet.
    pub fn new() -> (y: YieldOnce)
        ensures
            y.yielded == false,
    {
        YieldOnce { yielded: false }
    }

    /// One poll step: the first poll yields and asks for a wake-up, every
    /// later poll is ready.
    pub fn poll_step(&mut self) -> (r: PollOutcome)
        ensures
            final(self).yielded == true,
            r == (if old(self).yielded {
                PollOutcome::Ready
            } else {
                PollOutcome::Pending
            }),
    {
        if self.yielded {
            PollOutcome::Ready
        } else {
            self.yielded = true;
            PollOutcome::Pending
        }
    }
}

} // verus!
