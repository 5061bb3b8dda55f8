use consistency_harness::controller::{
    exit_code, expected_for, Expected, Fatal, RoundStep, Rounds, Signal, Stop, Workload,
};
use consistency_harness::poll::{
    is_stable, poll_answer, poll_due, CollectionStatus, PollPolicy, PollStep,
};
use consistency_harness::transfer::{
    advance, select_transfer, Phase, Selection, Stage, StartStep, TransferAction, TransferEvent,
};
use consistency_harness::window::Window;

const POLICY: PollPolicy = PollPolicy { interval_ms: 50, max_ms: 120_000 };

#[test]
fn selection_needs_two_nodes_and_a_method() {
    assert_eq!(select_transfer(0, 2), None);
    assert_eq!(select_transfer(1, 2), None);
    assert_eq!(select_transfer(3, 0), None);
    for _ in 0..200 {
        let selection = select_transfer(3, 2).unwrap();
        assert!(selection.from < 3);
        assert!(selection.to < 3);
        assert_ne!(selection.from, selection.to);
        assert!(selection.method < 2);
    }
}

#[test]
fn accepted_transfer_goes_through_all_phases() {
    let selection = Selection { from: 2, to: 0, method: 1 };
    let (phase, action) = advance(Phase::Idle, TransferEvent::Selected { selection }, POLICY);
    assert_eq!(phase, Phase::Starting { selection, step: StartStep::Resolving });
    assert_eq!(action, TransferAction::Resolve { from: 2, to: 0 });
    let (phase, action) =
        advance(phase, TransferEvent::Resolved { from_peer: 77, to_peer: 55 }, POLICY);
    assert_eq!(
        phase,
        Phase::Starting { selection, step: StartStep::AtLock { from_peer: 77, to_peer: 55 } }
    );
    assert_eq!(action, TransferAction::PassLock);
    let (phase, action) = advance(phase, TransferEvent::LockPassed, POLICY);
    assert_eq!(phase, Phase::Starting { selection, step: StartStep::Requested });
    assert_eq!(
        action,
        TransferAction::Request { node: 2, from_peer: 77, to_peer: 55, method: 1 }
    );
    let (phase, action) = advance(phase, TransferEvent::Accepted, POLICY);
    assert_eq!(phase, Phase::InFlight { from: 2, stage: Stage::Registered });
    assert_eq!(action, TransferAction::Watch { node: 2 });
    let (phase, action) = advance(phase, TransferEvent::Tick { elapsed_ms: 0 }, POLICY);
    assert_eq!(action, TransferAction::Query { node: 2 });
    let (phase, action) = advance(phase, TransferEvent::Count { transfers: 0 }, POLICY);
    assert_eq!(phase, Phase::InFlight { from: 2, stage: Stage::Registered });
    assert_eq!(action, TransferAction::Sleep { delay_ms: 50 });
    let (phase, action) = advance(phase, TransferEvent::Count { transfers: 1 }, POLICY);
    assert_eq!(phase, Phase::InFlight { from: 2, stage: Stage::Completed });
    assert_eq!(action, TransferAction::Watch { node: 2 });
    let (phase, action) = advance(phase, TransferEvent::Count { transfers: 1 }, POLICY);
    assert_eq!(action, TransferAction::Sleep { delay_ms: 50 });
    let (phase, action) = advance(phase, TransferEvent::Count { transfers: 0 }, POLICY);
    assert_eq!(phase, Phase::Idle);
    assert_eq!(action, TransferAction::Select);
}

#[test]
fn refused_request_waits_for_the_source_to_settle() {
    let selection = Selection { from: 1, to: 2, method: 0 };
    let requested = Phase::Starting { selection, step: StartStep::Requested };
    let (phase, action) = advance(requested, TransferEvent::Refused, POLICY);
    assert_eq!(phase, Phase::InFlight { from: 1, stage: Stage::Settled });
    assert_eq!(action, TransferAction::Watch { node: 1 });
    let (phase, action) = advance(phase, TransferEvent::Count { transfers: 2 }, POLICY);
    assert_eq!(action, TransferAction::Sleep { delay_ms: 50 });
    let (phase, action) = advance(phase, TransferEvent::Count { transfers: 0 }, POLICY);
    assert_eq!((phase, action), (Phase::Idle, TransferAction::Select));
}

#[test]
fn poll_at_the_limit_is_made_and_beyond_it_is_fatal() {
    let waiting = Phase::InFlight { from: 0, stage: Stage::Completed };
    assert_eq!(
        advance(waiting, TransferEvent::Tick { elapsed_ms: 120_000 }, POLICY),
        (waiting, TransferAction::Query { node: 0 })
    );
    assert_eq!(
        advance(waiting, TransferEvent::Tick { elapsed_ms: 120_001 }, POLICY),
        (Phase::Stuck, TransferAction::Abort)
    );
    assert_eq!(
        advance(Phase::Stuck, TransferEvent::Count { transfers: 0 }, POLICY),
        (Phase::Stuck, TransferAction::Abort)
    );
}

#[test]
fn event_out_of_place_changes_nothing() {
    assert_eq!(
        advance(Phase::Idle, TransferEvent::Accepted, POLICY),
        (Phase::Idle, TransferAction::Ignore)
    );
    let selection = Selection { from: 0, to: 1, method: 0 };
    let resolving = Phase::Starting { selection, step: StartStep::Resolving };
    assert_eq!(
        advance(resolving, TransferEvent::Count { transfers: 1 }, POLICY),
        (resolving, TransferAction::Ignore)
    );
    assert_eq!(
        advance(resolving, TransferEvent::LockPassed, POLICY),
        (resolving, TransferAction::Ignore)
    );
    assert_eq!(
        advance(resolving, TransferEvent::Accepted, POLICY),
        (resolving, TransferAction::Ignore)
    );
}

#[test]
fn expected_state_of_a_round() {
    assert_eq!(
        expected_for(Workload::Sweep { width: 200 }, 3),
        Some(Expected::Existence { window: Window { start: 600, width: 200 } })
    );
    assert_eq!(
        expected_for(Workload::Sweep { width: 0 }, 3),
        Some(Expected::Existence { window: Window { start: 0, width: 0 } })
    );
    assert_eq!(expected_for(Workload::Sweep { width: 2 }, u64::MAX), None);
    assert_eq!(expected_for(Workload::Counter, 0), Some(Expected::Scalar { value: 1 }));
    assert_eq!(expected_for(Workload::Counter, 9), Some(Expected::Scalar { value: 10 }));
    assert_eq!(expected_for(Workload::Counter, u64::MAX), None);
    assert_eq!(expected_for(Workload::Compare, 8), Some(Expected::CrossNodeEquality));
}

#[test]
fn rounds_run_until_the_limit() {
    let mut rounds = Rounds::starting_at(0, Some(3), Workload::Sweep { width: 200 }, true);
    let mut seen = Vec::new();
    loop {
        match rounds.advance(Signal::Proceed) {
            RoundStep::Run { round, expected, start_injector } => {
                assert_eq!(
                    expected,
                    Expected::Existence { window: Window { start: round * 200, width: 200 } }
                );
                seen.push((round, start_injector));
            }
            RoundStep::Halt { reason } => {
                assert_eq!(reason, Stop::LimitReached);
                break;
            }
        }
    }
    assert_eq!(seen, vec![(0, false), (1, true), (2, false)]);
    assert_eq!(rounds.stopped, Some(Stop::LimitReached));
}

#[test]
fn rounds_restart_from_any_round() {
    let mut rounds = Rounds::starting_at(40, None, Workload::Counter, false);
    assert_eq!(
        rounds.advance(Signal::Proceed),
        RoundStep::Run { round: 40, expected: Expected::Scalar { value: 41 }, start_injector: false }
    );
    assert_eq!(
        rounds.advance(Signal::Proceed),
        RoundStep::Run { round: 41, expected: Expected::Scalar { value: 42 }, start_injector: false }
    );
}

#[test]
fn failed_check_ends_the_run() {
    let mut rounds = Rounds::starting_at(0, None, Workload::Counter, true);
    assert!(matches!(rounds.advance(Signal::Proceed), RoundStep::Run { round: 0, .. }));
    let fatal = Fatal::ConfirmedInconsistency;
    assert_eq!(
        rounds.advance(Signal::Failed { fatal }),
        RoundStep::Halt { reason: Stop::Failed { fatal } }
    );
    assert_eq!(
        rounds.advance(Signal::Proceed),
        RoundStep::Halt { reason: Stop::Failed { fatal } }
    );
    assert_eq!(rounds.advance(Signal::Cancelled), RoundStep::Halt { reason: Stop::Failed { fatal } });
    assert_eq!(rounds.next, 1);
}

#[test]
fn cancel_ends_the_run() {
    let mut rounds = Rounds::starting_at(5, None, Workload::Sweep { width: 10 }, false);
    assert_eq!(rounds.advance(Signal::Cancelled), RoundStep::Halt { reason: Stop::Cancelled });
}

#[test]
fn round_without_a_window_ends_the_run() {
    let mut rounds = Rounds::starting_at(u64::MAX / 2, None, Workload::Sweep { width: 4 }, false);
    assert_eq!(rounds.advance(Signal::Proceed), RoundStep::Halt { reason: Stop::OutOfRange });
    let mut rounds = Rounds::starting_at(u64::MAX, None, Workload::Sweep { width: 0 }, false);
    assert_eq!(rounds.advance(Signal::Proceed), RoundStep::Halt { reason: Stop::OutOfRange });
    let mut rounds = Rounds::starting_at(9, None, Workload::Sweep { width: 0 }, false);
    assert_eq!(
        rounds.advance(Signal::Proceed),
        RoundStep::Run {
            round: 9,
            expected: Expected::Existence { window: Window { start: 0, width: 0 } },
            start_injector: false,
        }
    );
}

#[test]
fn limit_at_the_first_round_runs_nothing() {
    let mut rounds = Rounds::starting_at(7, Some(7), Workload::Counter, true);
    assert_eq!(rounds.advance(Signal::Proceed), RoundStep::Halt { reason: Stop::LimitReached });
}

#[test]
fn every_fatal_condition_ends_the_run_with_a_failure_status() {
    for fatal in [
        Fatal::RetriesExhausted,
        Fatal::PollTimedOut,
        Fatal::StructuralMismatch,
        Fatal::ConfirmedInconsistency,
    ] {
        let mut rounds = Rounds::starting_at(0, None, Workload::Sweep { width: 200 }, true);
        assert!(matches!(rounds.advance(Signal::Proceed), RoundStep::Run { round: 0, .. }));
        let step = rounds.advance(Signal::Failed { fatal });
        assert_eq!(step, RoundStep::Halt { reason: Stop::Failed { fatal } });
        assert_eq!(exit_code(Stop::Failed { fatal }), 1);
    }
    assert_eq!(exit_code(Stop::OutOfRange), 2);
    assert_eq!(exit_code(Stop::Cancelled), 0);
    assert_eq!(exit_code(Stop::LimitReached), 0);
}

#[test]
fn poll_asks_up_to_the_limit_and_gives_up_beyond_it() {
    assert_eq!(poll_due(0, POLICY), PollStep::Query);
    assert_eq!(poll_due(120_000, POLICY), PollStep::Query);
    assert_eq!(poll_due(120_001, POLICY), PollStep::TimedOut);
    assert_eq!(poll_due(u64::MAX, POLICY), PollStep::TimedOut);
    assert_eq!(poll_answer(true, POLICY), PollStep::Reached);
    assert_eq!(poll_answer(false, POLICY), PollStep::Sleep { delay_ms: 50 });
}

#[test]
fn collection_has_settled_when_it_is_green() {
    assert!(is_stable(CollectionStatus::Green));
    for status in [
        CollectionStatus::Unknown,
        CollectionStatus::Yellow,
        CollectionStatus::Red,
        CollectionStatus::Grey,
    ] {
        assert!(!is_stable(status));
    }
}

#[test]
fn node_that_never_settles_times_out_after_the_limit() {
    let policy = PollPolicy { interval_ms: 50, max_ms: 200 };
    let mut elapsed = 0;
    let mut queries = 0;
    let outcome = loop {
        match poll_due(elapsed, policy) {
            PollStep::TimedOut => break PollStep::TimedOut,
            _ => queries += 1,
        }
        match poll_answer(is_stable(CollectionStatus::Yellow), policy) {
            PollStep::Sleep { delay_ms } => elapsed += delay_ms,
            other => break other,
        }
    };
    assert_eq!(outcome, PollStep::TimedOut);
    assert_eq!(queries, 5);
    assert_eq!(elapsed, 250);
}
