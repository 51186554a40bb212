//! The flag that the lock guards, and the two operations on it.
use vstd::prelude::*;

verus! {

/// What a waiter does after one pass through the wait loop.
#[derive(Clone, Copy, Debug, PartialEq, Eq, Structural)]
pub enum WaitStep {
    /// The flag is armed: block on the condition variable, which gives the
    /// lock up while the thread sleeps, and make another pass once woken.
    Park,
    /// A signal was pending. It is consumed, the flag is armed again, and the
    /// waiter releases the lock and returns.
    Consumed,
}

/// Which of the threads blocked on the condition variable a signaller wakes.
#[derive(Clone, Copy, Debug, PartialEq, Eq, Structural)]
pub enum Wake {
    /// A single waiter, chosen by the host.
    One,
    /// Every waiter.
    All,
}

/// What one pass tells a waiter that finds the flag `armed`: to park while it
/// is armed, to go on once a signal has cleared it.
pub open spec fn wait_step(armed: bool) -> WaitStep {
    if armed {
        WaitStep::Park
    } else {
        WaitStep::Consumed
    }
}

/// The shared flag. `true` means armed: no signal is pending and readers must
/// wait. The field is private and every operation that changes it takes
/// `&mut self`, a reference that the host hands out only while it holds the
/// lock.
#[derive(Debug)]
pub struct CompletionState {
    armed: bool,
}

impl View for CompletionState {
    type V = bool;

    /// The flag: `true` while armed.
    closed spec fn view(&self) -> bool {
        self.armed
    }
}

impl Default for CompletionState {
    /// The same as `new`: armed.
    fn default() -> (state: Self)
        ensures
            state@,
    {
        CompletionState::new()
    }
}

impl CompletionState {
    /// A fresh state: armed, so that the first reader waits.
    pub fn new() -> (state: Self)
        ensures
            state@,
    {
        CompletionState { armed: true }
    }

    /// The flag as it stands.
    pub fn is_armed(&self) -> (armed: bool)
        ensures
            armed == self@,
    {
        self.armed
    }

    /// One pass through the wait loop, made with the lock held. Where the flag
    /// is armed nothing changes and the waiter must park. Where a signal is
    /// pending the pass consumes it and arms the flag again, so that no caller
    /// ever leaves the flag cleared behind it.
    pub fn wait_for_completion(&mut self) -> (step: WaitStep)
        ensures
            step == wait_step(old(self)@),
            final(self)@,
    {
        if self.armed {
            WaitStep::Park
        } else {
            self.armed = true;
            WaitStep::Consumed
        }
    }

    /// Clears the flag, with the lock held, and tells the signaller to wake
    /// every waiter. It does not wait for a reader to consume the signal.
    pub fn signal_completion(&mut self) -> (wake: Wake)
        ensures
            wake == Wake::All,
            !final(self)@,
    {
        self.armed = false;
        Wake::All
    }
}

} // verus!
