//! Polling under a time limit: a node is asked again and again, with a
//! fixed wait in between, until it reports what is waited for or the time
//! is up. A poll that runs out of time is fatal and never taken up again.

use vstd::prelude::*;

verus! {

/// How a node is polled.
#[derive(Clone, Copy, Debug, PartialEq, Eq, Structural)]
pub struct PollPolicy {
    /// The wait between two polls.
    pub interval_ms: u64,
    /// The time that the whole wait may take.
    pub max_ms: u64,
}

/// What a poll does next.
#[derive(Clone, Copy, Debug, PartialEq, Eq, Structural)]
pub enum PollStep {
    /// Ask the node.
    Query,
    /// The node reported what was waited for: the wait is over.
    Reached,
    /// The node reported something else: wait, then look at the clock
    /// again.
    Sleep { delay_ms: u64 },
    /// The time is up: the cluster is stuck and the run ends.
    TimedOut,
}

/// The state of a collection as a node reports it.
#[derive(Clone, Copy, Debug, PartialEq, Eq, Structural)]
pub enum CollectionStatus {
    /// The node gave no state that is known.
    Unknown,
    /// All segments are ready.
    Green,
    /// An optimization is running.
    Yellow,
    /// Something went wrong.
    Red,
    /// An optimization is pending.
    Grey,
}

/// What follows a look at the clock, `elapsed_ms` after the wait began:
/// the node is asked as long as the time limit is not passed. A look that
/// falls on the limit itself still asks.
pub open spec fn before_poll(elapsed_ms: u64, policy: PollPolicy) -> PollStep {
    if elapsed_ms > policy.max_ms {
        PollStep::TimedOut
    } else {
        PollStep::Query
    }
}

/// What follows an answer: the wait is over where the node reported what
/// was waited for, else it goes on after the interval.
pub open spec fn after_poll(reached: bool, policy: PollPolicy) -> PollStep {
    if reached {
        PollStep::Reached
    } else {
        PollStep::Sleep { delay_ms: policy.interval_ms }
    }
}

/// Decides, before each question, whether the node is still asked.
pub fn poll_due(elapsed_ms: u64, policy: PollPolicy) -> (step: PollStep)
    ensures
        step == before_poll(elapsed_ms, policy),
{
    if elapsed_ms > policy.max_ms {
        PollStep::TimedOut
    } else {
        PollStep::Query
    }
}

/// Decides, after each answer, whether the wait is over.
pub fn poll_answer(reached: bool, policy: PollPolicy) -> (step: PollStep)
    ensures
        step == after_poll(reached, policy),
{
    if reached {
        PollStep::Reached
    } else {
        PollStep::Sleep { delay_ms: policy.interval_ms }
    }
}

/// Whether a collection has settled: its state is green.
pub fn is_stable(status: CollectionStatus) -> (stable: bool)
    ensures
        stable == (status == CollectionStatus::Green),
{
    match status {
        CollectionStatus::Green => true,
        _ => false,
    }
}

/// Only the clock ends a wait without success: an answer never does, and
/// a look at the clock does exactly where the limit is passed. Past the
/// limit the node is not even asked.
pub proof fn only_the_clock_times_out(elapsed_ms: u64, reached: bool, policy: PollPolicy)
    ensures
        after_poll(reached, policy) != PollStep::TimedOut,
        before_poll(elapsed_ms, policy) == PollStep::TimedOut <==> elapsed_ms > policy.max_ms,
        before_poll(elapsed_ms, policy) == PollStep::Query <==> elapsed_ms <= policy.max_ms,
{
}

} // verus!
