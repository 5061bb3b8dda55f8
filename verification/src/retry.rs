//! The bounded retry of one remote mutation: a fixed number of attempts
//! with a fixed delay between them; a call that fails every time is fatal.

use vstd::prelude::*;

verus! {

/// What follows one attempt.
#[derive(Clone, Copy, Debug, PartialEq, Eq, Structural)]
pub enum AfterAttempt {
    /// The call succeeded: go on with the next batch.
    Done,
    /// The call failed and attempts are left: wait, then call again.
    RetryAfter { delay_ms: u64 },
    /// The call failed and no attempt is left: the run ends.
    Abort,
}

/// The attempts that are left for one call, and the delay between two.
#[derive(Clone, Copy, Debug, PartialEq, Eq, Structural)]
pub struct Retry {
    pub left: u32,
    pub delay_ms: u64,
}

impl Retry {
    /// The state that follows an attempt, and what to do next.
    pub open spec fn step(self, succeeded: bool) -> (Retry, AfterAttempt) {
        if succeeded {
            (Retry { left: 0, delay_ms: self.delay_ms }, AfterAttempt::Done)
        } else if self.left > 1 {
            (
                Retry { left: (self.left - 1) as u32, delay_ms: self.delay_ms },
                AfterAttempt::RetryAfter { delay_ms: self.delay_ms },
            )
        } else {
            (Retry { left: 0, delay_ms: self.delay_ms }, AfterAttempt::Abort)
        }
    }

    /// The state after `failures` attempts that all failed.
    pub open spec fn after_failures(self, failures: nat) -> Retry
        decreases failures,
    {
        if failures == 0 {
            self
        } else {
            self.after_failures((failures - 1) as nat).step(false).0
        }
    }

    /// A call that may be attempted `attempts` times, `delay_ms`
    /// milliseconds apart.
    pub fn begin(attempts: u32, delay_ms: u64) -> (retry: Retry)
        ensures
            retry == (Retry { left: attempts, delay_ms }),
    {
        Retry { left: attempts, delay_ms }
    }

    /// Whether an attempt may be made. With a budget of zero none is, and
    /// the call is passed over.
    pub fn may_attempt(&self) -> (open: bool)
        ensures
            open == (self.left > 0),
    {
        self.left > 0
    }

    /// Records how an attempt ended and says what follows.
    pub fn record(&mut self, succeeded: bool) -> (next: AfterAttempt)
        ensures
            (*final(self), next) == old(self).step(succeeded),
    {
        if succeeded {
            self.left = 0;
            AfterAttempt::Done
        } else if self.left > 1 {
            self.left = self.left - 1;
            AfterAttempt::RetryAfter { delay_ms: self.delay_ms }
        } else {
            self.left = 0;
            AfterAttempt::Abort
        }
    }
}

/// A call that always fails is attempted exactly as often as the budget
/// says: each failure before the last is followed by the configured delay
/// and another attempt, and the last one ends the run.
pub proof fn failing_call_aborts_on_last_attempt(retry: Retry, failures: nat)
    requires
        retry.left >= 1,
        failures < retry.left,
    ensures
        retry.after_failures(failures) == (Retry {
            left: (retry.left - failures) as u32,
            delay_ms: retry.delay_ms,
        }),
        failures + 1 < retry.left ==> retry.after_failures(failures).step(false).1 == (
        AfterAttempt::RetryAfter { delay_ms: retry.delay_ms }),
        failures + 1 == retry.left ==> retry.after_failures(failures).step(false).1
            == AfterAttempt::Abort,
    decreases failures,
{
    if failures > 0 {
        failing_call_aborts_on_last_attempt(retry, (failures - 1) as nat);
    }
}

} // verus!
