//! The round controller: round after round the workload is applied and
//! the cluster verified, until a check fails, the run is cancelled or the
//! round limit is reached.

use vstd::prelude::*;
use crate::counters::expected_after;
use crate::window::Window;

verus! {

/// The kind of workload that the rounds apply.
#[derive(Clone, Copy, Debug, PartialEq, Eq, Structural)]
pub enum Workload {
    /// Each round deletes the previous window and upserts its own, of
    /// `width` identifiers.
    Sweep { width: u64 },
    /// Each round raises every counter by one.
    Counter,
    /// Nothing is written: each round compares the nodes with each other.
    Compare,
}

/// What the checker enforces after a round.
#[derive(Clone, Copy, Debug, PartialEq, Eq, Structural)]
pub enum Expected {
    /// Every node holds exactly the identifiers of the window.
    Existence { window: Window },
    /// Every counter is `value`.
    Scalar { value: i64 },
    /// Every node returns the points that its neighbour returns.
    CrossNodeEquality,
}

/// The conditions that end a run for good. None of them is absorbed by a
/// component: each reaches the controller.
#[derive(Clone, Copy, Debug, PartialEq, Eq, Structural)]
pub enum Fatal {
    /// A remote call failed on every attempt that its budget allows.
    RetriesExhausted,
    /// A poll took longer than its time limit: the cluster is stuck.
    PollTimedOut,
    /// Two nodes returned different identifiers at one place of the scan.
    StructuralMismatch,
    /// The nodes were still inconsistent after the last check cycle. This
    /// is what the harness is there to find.
    ConfirmedInconsistency,
}

/// What the controller is told before it plans the next round.
#[derive(Clone, Copy, Debug, PartialEq, Eq, Structural)]
pub enum Signal {
    /// Nothing stands against the next round: none was run yet, or the
    /// last one passed its check.
    Proceed,
    /// The last round ended in a fatal condition.
    Failed { fatal: Fatal },
    /// The run was cancelled from outside.
    Cancelled,
}

/// Why the rounds end.
#[derive(Clone, Copy, Debug, PartialEq, Eq, Structural)]
pub enum Stop {
    /// A fatal condition came up.
    Failed { fatal: Fatal },
    /// The run was cancelled.
    Cancelled,
    /// The round limit is reached.
    LimitReached,
    /// The next round has no expected state: its window or its counter
    /// is out of range.
    OutOfRange,
}

/// What the controller does next.
#[derive(Clone, Copy, Debug, PartialEq, Eq, Structural)]
pub enum RoundStep {
    /// Apply the workload of `round`, then verify `expected`. Where
    /// `start_injector` is set the transfer coordinator is started first.
    Run { round: u64, expected: Expected, start_injector: bool },
    /// End the run.
    Halt { reason: Stop },
}

/// The rounds of one run.
#[derive(Clone, Copy, Debug, PartialEq, Eq, Structural)]
pub struct Rounds {
    /// The round at which the run began.
    pub first: u64,
    /// The round that is planned next.
    pub next: u64,
    /// The round before which the run ends, if there is a limit.
    pub limit: Option<u64>,
    /// The workload.
    pub workload: Workload,
    /// Whether transfers are injected.
    pub transfers: bool,
    /// Why the run has ended, once it has.
    pub stopped: Option<Stop>,
}

/// The state that the checker enforces after `round`, if there is one.
pub open spec fn expected_for_spec(workload: Workload, round: u64) -> Option<Expected> {
    match workload {
        Workload::Sweep { width } => if width == 0 || round * width + width - 1 <= u64::MAX {
            Some(
                Expected::Existence { window: Window { start: (round * width) as u64, width } },
            )
        } else {
            None
        },
        Workload::Counter => if round + 1 <= i64::MAX {
            Some(Expected::Scalar { value: (round + 1) as i64 })
        } else {
            None
        },
        Workload::Compare => Some(Expected::CrossNodeEquality),
    }
}

/// The state that the checker enforces after `round`: the window of the
/// round for a sweep, the number of completed rounds for counters.
pub fn expected_for(workload: Workload, round: u64) -> (expected: Option<Expected>)
    ensures
        expected == expected_for_spec(workload, round),
{
    match workload {
        Workload::Sweep { width } => match Window::for_round(round, width) {
            Some(window) => Some(Expected::Existence { window }),
            None => None,
        },
        Workload::Counter => match expected_after(round) {
            Some(value) => Some(Expected::Scalar { value }),
            None => None,
        },
        Workload::Compare => Some(Expected::CrossNodeEquality),
    }
}

/// Whether the counters are checked after `round` where they are not
/// checked after every round: after each of the first five rounds, and
/// after every tenth.
pub fn check_is_due(round: u64, always: bool) -> (due: bool)
    ensures
        due == (always || round % 10 == 0 || round < 5),
{
    always || round % 10 == 0 || round < 5
}

impl Rounds {
    /// The run that begins at `first`. It can begin at any round.
    pub fn starting_at(first: u64, limit: Option<u64>, workload: Workload, transfers: bool) -> (rounds:
        Rounds)
        ensures
            rounds == (Rounds { first, next: first, limit, workload, transfers, stopped: None }),
    {
        Rounds { first, next: first, limit, workload, transfers, stopped: None }
    }

    /// The reason for which the run ends on `signal`, if it does.
    pub open spec fn stop_on(self, signal: Signal) -> Option<Stop> {
        if signal is Failed {
            Some(Stop::Failed { fatal: signal->fatal })
        } else if signal == Signal::Cancelled {
            Some(Stop::Cancelled)
        } else if self.limit is Some && self.next >= self.limit.unwrap() {
            Some(Stop::LimitReached)
        } else if expected_for_spec(self.workload, self.next) is None || self.next == u64::MAX {
            Some(Stop::OutOfRange)
        } else {
            None
        }
    }

    /// The state that follows `signal`, and what to do. A run that has
    /// ended stays ended, for the reason for which it ended. The transfer
    /// coordinator starts with the round after the first one, so that the
    /// collection can settle.
    pub open spec fn plan(self, signal: Signal) -> (Rounds, RoundStep) {
        if self.stopped is Some {
            (self, RoundStep::Halt { reason: self.stopped.unwrap() })
        } else if self.stop_on(signal) is Some {
            (
                Rounds { stopped: self.stop_on(signal), ..self },
                RoundStep::Halt { reason: self.stop_on(signal).unwrap() },
            )
        } else {
            (
                Rounds { next: (self.next + 1) as u64, ..self },
                RoundStep::Run {
                    round: self.next,
                    expected: expected_for_spec(self.workload, self.next).unwrap(),
                    start_injector: self.transfers && self.next == self.first + 1,
                },
            )
        }
    }

    /// Plans the next round, or ends the run.
    pub fn advance(&mut self, signal: Signal) -> (step: RoundStep)
        ensures
            (*final(self), step) == old(self).plan(signal),
    {
        match self.stopped {
            Some(reason) => {
                return RoundStep::Halt { reason };
            },
            None => {},
        }
        let reason = self.reason_to_stop(signal);
        match reason {
            Some(reason) => {
                self.stopped = Some(reason);
                RoundStep::Halt { reason }
            },
            None => {
                let round = self.next;
                let expected = expected_for(self.workload, round);
                let start_injector = self.transfers && self.first < u64::MAX && round == self.first
                    + 1;
                self.next = round + 1;
                RoundStep::Run { round, expected: expected.unwrap(), start_injector }
            },
        }
    }

    /// The reason for which the run ends on `signal`, if it does.
    pub fn reason_to_stop(&self, signal: Signal) -> (reason: Option<Stop>)
        ensures
            reason == self.stop_on(signal),
    {
        match signal {
            Signal::Failed { fatal } => {
                return Some(Stop::Failed { fatal });
            },
            Signal::Cancelled => {
                return Some(Stop::Cancelled);
            },
            Signal::Proceed => {},
        }
        match self.limit {
            Some(limit) => {
                if self.next >= limit {
                    return Some(Stop::LimitReached);
                }
            },
            None => {},
        }
        if expected_for(self.workload, self.next).is_none() || self.next == u64::MAX {
            Some(Stop::OutOfRange)
        } else {
            None
        }
    }

    /// The state after `passed` rounds that were all planned and passed.
    pub open spec fn after_passes(self, passed: nat) -> Rounds
        decreases passed,
    {
        if passed == 0 {
            self
        } else {
            self.after_passes((passed - 1) as nat).plan(Signal::Proceed).0
        }
    }
}

/// Rounds come one after the other, without a gap: as long as nothing
/// stops the run, the round that is planned after `passed` rounds is the
/// first one plus `passed`, and the transfer coordinator starts with the
/// second round of the run and with no other.
pub proof fn rounds_follow_each_other(start: Rounds, passed: nat)
    requires
        start.stopped is None,
        start.next == start.first,
        forall|k: nat|
            k <= passed ==> start.first + k < u64::MAX && (start.limit is Some ==> start.first + k
                < start.limit.unwrap()) && #[trigger] expected_for_spec(
                start.workload,
                (start.first + k) as u64,
            ) is Some,
    ensures
        start.after_passes(passed) == (Rounds { next: (start.first + passed) as u64, ..start }),
        start.after_passes(passed).plan(Signal::Proceed).1 == (RoundStep::Run {
            round: (start.first + passed) as u64,
            expected: expected_for_spec(start.workload, (start.first + passed) as u64).unwrap(),
            start_injector: start.transfers && passed == 1,
        }),
    decreases passed,
{
    if passed > 0 {
        rounds_follow_each_other(start, (passed - 1) as nat);
        assert(expected_for_spec(start.workload, (start.first + (passed - 1) as nat) as u64) is Some);
    }
    assert(expected_for_spec(start.workload, (start.first + passed) as u64) is Some);
}

/// A fatal condition ends the run at once, whichever it is, and a run
/// that has ended plans no further round.
pub proof fn failure_ends_the_run(rounds: Rounds, fatal: Fatal, later: Signal)
    requires
        rounds.stopped is None,
    ensures
        rounds.plan(Signal::Failed { fatal }).1 == (RoundStep::Halt {
            reason: Stop::Failed { fatal },
        }),
        rounds.plan(Signal::Failed { fatal }).0.plan(later).1 == (RoundStep::Halt {
            reason: Stop::Failed { fatal },
        }),
        exit_status(Stop::Failed { fatal }) != 0,
{
}

/// The exit status of the process for each way in which a run ends: zero
/// where it ends in order, at its limit or by cancellation.
pub open spec fn exit_status(reason: Stop) -> u8 {
    match reason {
        Stop::Failed { fatal } => 1,
        Stop::OutOfRange => 2,
        Stop::Cancelled => 0,
        Stop::LimitReached => 0,
    }
}

/// The exit status of the process for `reason`.
pub fn exit_code(reason: Stop) -> (status: u8)
    ensures
        status == exit_status(reason),
        status == 0 <==> reason == Stop::Cancelled || reason == Stop::LimitReached,
{
    match reason {
        Stop::Failed { fatal: _ } => 1,
        Stop::OutOfRange => 2,
        Stop::Cancelled => 0,
        Stop::LimitReached => 0,
    }
}

} // verus!
