//! The transfer coordinator: it moves a shard between two nodes drawn at
//! random, again and again, and watches the source's count of transfers
//! to see each one start and finish.

use vstd::prelude::*;
use crate::poll::{after_poll, before_poll, poll_answer, poll_due, PollPolicy, PollStep};
use crate::selection::{pick_node, pick_pair};

verus! {

/// The source, the destination and the method of one transfer.
#[derive(Clone, Copy, Debug, PartialEq, Eq, Structural)]
pub struct Selection {
    pub from: usize,
    pub to: usize,
    pub method: usize,
}

/// What the coordinator waits for while it polls the source.
#[derive(Clone, Copy, Debug, PartialEq, Eq, Structural)]
pub enum Stage {
    /// The request was accepted: the source is to report one transfer.
    Registered,
    /// The transfer is registered: the source is to report none.
    Completed,
    /// The request was refused: the source is to report none before the
    /// next selection.
    Settled,
}

/// How far the start of a transfer has come.
#[derive(Clone, Copy, Debug, PartialEq, Eq, Structural)]
pub enum StartStep {
    /// Both nodes are asked for their peer identifiers.
    Resolving,
    /// The peer identifiers are known; the coordinator waits at the
    /// transfer lock.
    AtLock { from_peer: u64, to_peer: u64 },
    /// The lock was passed and the request is sent.
    Requested,
}

/// Where the coordinator stands.
#[derive(Clone, Copy, Debug, PartialEq, Eq, Structural)]
pub enum Phase {
    /// No transfer is under way: the next one is to be selected.
    Idle,
    /// A transfer is selected; its request is not answered yet.
    Starting { selection: Selection, step: StartStep },
    /// The source is polled.
    InFlight { from: usize, stage: Stage },
    /// A poll ran out of time: the cluster is stuck and the run ends.
    Stuck,
}

/// What the coordinator learns.
#[derive(Clone, Copy, Debug, PartialEq, Eq, Structural)]
pub enum TransferEvent {
    /// Source, destination and method were drawn.
    Selected { selection: Selection },
    /// The nodes told their peer identifiers.
    Resolved { from_peer: u64, to_peer: u64 },
    /// The coordinator held the transfer lock and let go of it.
    LockPassed,
    /// The request for the transfer was accepted.
    Accepted,
    /// The request for the transfer failed, as it does where the source
    /// is in the middle of another transfer.
    Refused,
    /// A poll is about to be made, `elapsed_ms` after the first poll of
    /// this stage.
    Tick { elapsed_ms: u64 },
    /// The source reported `transfers` transfers.
    Count { transfers: usize },
}

/// What the coordinator does next.
#[derive(Clone, Copy, Debug, PartialEq, Eq, Structural)]
pub enum TransferAction {
    /// Draw source, destination and method.
    Select,
    /// Ask both nodes for their peer identifiers. They are asked anew for
    /// every transfer.
    Resolve { from: usize, to: usize },
    /// Take the transfer lock, waiting while it is held, and let go of it
    /// at once.
    PassLock,
    /// Request the transfer at the source node.
    Request { node: usize, from_peer: u64, to_peer: u64, method: usize },
    /// Start the clock of a new stage and poll the source.
    Watch { node: usize },
    /// Ask the source for its count of transfers.
    Query { node: usize },
    /// Wait, then poll again.
    Sleep { delay_ms: u64 },
    /// End the run: a poll ran out of time.
    Abort,
    /// The event does not belong to the phase: nothing changes.
    Ignore,
}

/// The count of transfers that ends a stage.
pub open spec fn target_of(stage: Stage) -> usize {
    match stage {
        Stage::Registered => 1,
        Stage::Completed => 0,
        Stage::Settled => 0,
    }
}

/// The phase that follows `phase` on `event`, and what to do.
pub open spec fn advance_spec(phase: Phase, event: TransferEvent, policy: PollPolicy) -> (
    Phase,
    TransferAction,
) {
    match (phase, event) {
        (Phase::Idle, TransferEvent::Selected { selection }) => (
            Phase::Starting { selection, step: StartStep::Resolving },
            TransferAction::Resolve { from: selection.from, to: selection.to },
        ),
        (
            Phase::Starting { selection, step: StartStep::Resolving },
            TransferEvent::Resolved { from_peer, to_peer },
        ) => (
            Phase::Starting { selection, step: StartStep::AtLock { from_peer, to_peer } },
            TransferAction::PassLock,
        ),
        (
            Phase::Starting { selection, step: StartStep::AtLock { from_peer, to_peer } },
            TransferEvent::LockPassed,
        ) => (
            Phase::Starting { selection, step: StartStep::Requested },
            TransferAction::Request {
                node: selection.from,
                from_peer,
                to_peer,
                method: selection.method,
            },
        ),
        (Phase::Starting { selection, step: StartStep::Requested }, TransferEvent::Accepted) => (
            Phase::InFlight { from: selection.from, stage: Stage::Registered },
            TransferAction::Watch { node: selection.from },
        ),
        (Phase::Starting { selection, step: StartStep::Requested }, TransferEvent::Refused) => (
            Phase::InFlight { from: selection.from, stage: Stage::Settled },
            TransferAction::Watch { node: selection.from },
        ),
        (Phase::InFlight { from, stage }, TransferEvent::Tick { elapsed_ms }) => if before_poll(
            elapsed_ms,
            policy,
        ) == PollStep::TimedOut {
            (Phase::Stuck, TransferAction::Abort)
        } else {
            (phase, TransferAction::Query { node: from })
        },
        (Phase::InFlight { from, stage }, TransferEvent::Count { transfers }) => if after_poll(
            transfers == target_of(stage),
            policy,
        ) != PollStep::Reached {
            (phase, TransferAction::Sleep { delay_ms: policy.interval_ms })
        } else if stage == Stage::Registered {
            (Phase::InFlight { from, stage: Stage::Completed }, TransferAction::Watch { node: from })
        } else {
            (Phase::Idle, TransferAction::Select)
        },
        (Phase::Stuck, _) => (Phase::Stuck, TransferAction::Abort),
        _ => (phase, TransferAction::Ignore),
    }
}

/// Draws the next transfer among `nodes` nodes and `methods` methods.
/// There is none to draw with fewer than two nodes or without a method.
pub fn select_transfer(nodes: usize, methods: usize) -> (selection: Option<Selection>)
    ensures
        selection is Some <==> nodes >= 2 && methods >= 1,
        selection is Some ==> selection.unwrap().from < nodes && selection.unwrap().to < nodes
            && selection.unwrap().from != selection.unwrap().to && selection.unwrap().method
            < methods,
{
    if nodes < 2 || methods < 1 {
        return None;
    }
    let (from, to) = pick_pair(nodes);
    let method = pick_node(methods);
    Some(Selection { from, to, method })
}

/// Takes the coordinator from `phase` to the next on `event`.
pub fn advance(phase: Phase, event: TransferEvent, policy: PollPolicy) -> (next: (
    Phase,
    TransferAction,
))
    ensures
        next == advance_spec(phase, event, policy),
{
    match phase {
        Phase::Idle => match event {
            TransferEvent::Selected { selection } => (
                Phase::Starting { selection, step: StartStep::Resolving },
                TransferAction::Resolve { from: selection.from, to: selection.to },
            ),
            _ => (phase, TransferAction::Ignore),
        },
        Phase::Starting { selection, step } => match (step, event) {
            (StartStep::Resolving, TransferEvent::Resolved { from_peer, to_peer }) => (
                Phase::Starting { selection, step: StartStep::AtLock { from_peer, to_peer } },
                TransferAction::PassLock,
            ),
            (StartStep::AtLock { from_peer, to_peer }, TransferEvent::LockPassed) => (
                Phase::Starting { selection, step: StartStep::Requested },
                TransferAction::Request {
                    node: selection.from,
                    from_peer,
                    to_peer,
                    method: selection.method,
                },
            ),
            (StartStep::Requested, TransferEvent::Accepted) => (
                Phase::InFlight { from: selection.from, stage: Stage::Registered },
                TransferAction::Watch { node: selection.from },
            ),
            (StartStep::Requested, TransferEvent::Refused) => (
                Phase::InFlight { from: selection.from, stage: Stage::Settled },
                TransferAction::Watch { node: selection.from },
            ),
            _ => (phase, TransferAction::Ignore),
        },
        Phase::InFlight { from, stage } => match event {
            TransferEvent::Tick { elapsed_ms } => {
                match poll_due(elapsed_ms, policy) {
                    PollStep::TimedOut => (Phase::Stuck, TransferAction::Abort),
                    _ => (phase, TransferAction::Query { node: from }),
                }
            },
            TransferEvent::Count { transfers } => {
                let target: usize = match stage {
                    Stage::Registered => 1,
                    Stage::Completed => 0,
                    Stage::Settled => 0,
                };
                match poll_answer(transfers == target, policy) {
                    PollStep::Reached => match stage {
                        Stage::Registered => (
                            Phase::InFlight { from, stage: Stage::Completed },
                            TransferAction::Watch { node: from },
                        ),
                        _ => (Phase::Idle, TransferAction::Select),
                    },
                    _ => (phase, TransferAction::Sleep { delay_ms: policy.interval_ms }),
                }
            },
            _ => (phase, TransferAction::Ignore),
        },
        Phase::Stuck => (Phase::Stuck, TransferAction::Abort),
    }
}

/// The phase after each of `events`, in order, from `phase` on.
pub open spec fn after_events(phase: Phase, events: Seq<TransferEvent>, policy: PollPolicy) -> Phase
    decreases events.len(),
{
    if events.len() == 0 {
        phase
    } else {
        advance_spec(after_events(phase, events.drop_last(), policy), events.last(), policy).0
    }
}

/// The start of a transfer, event by event: the peers are resolved, the
/// lock is passed, the request is sent.
pub open spec fn start_events(selection: Selection, from_peer: u64, to_peer: u64) -> Seq<
    TransferEvent,
> {
    seq![
        TransferEvent::Selected { selection },
        TransferEvent::Resolved { from_peer, to_peer },
        TransferEvent::LockPassed,
    ]
}

/// No request is sent before the lock was passed: from idle, the events
/// of a start lead to the request, and only the passing of the lock does.
pub proof fn request_follows_the_lock(
    selection: Selection,
    from_peer: u64,
    to_peer: u64,
    policy: PollPolicy,
    phase: Phase,
    event: TransferEvent,
)
    ensures
        after_events(Phase::Idle, start_events(selection, from_peer, to_peer), policy) == (
        Phase::Starting { selection, step: StartStep::Requested }),
        advance_spec(phase, event, policy).1 is Request ==> event == TransferEvent::LockPassed
            && phase is Starting && phase->step is AtLock,
{
    let events = start_events(selection, from_peer, to_peer);
    let two = events.drop_last();
    let one = two.drop_last();
    assert(one.drop_last().len() == 0);
    assert(after_events(Phase::Idle, one.drop_last(), policy) == Phase::Idle);
    assert(after_events(Phase::Idle, one, policy) == Phase::Starting {
        selection,
        step: StartStep::Resolving,
    });
    assert(after_events(Phase::Idle, two, policy) == Phase::Starting {
        selection,
        step: StartStep::AtLock { from_peer, to_peer },
    });
}

/// A transfer that is accepted, seen registered and seen complete takes
/// the coordinator from starting through in flight back to idle.
pub proof fn accepted_transfer_returns_to_idle(selection: Selection, policy: PollPolicy)
    ensures
        after_events(
            Phase::Starting { selection, step: StartStep::Requested },
            seq![
                TransferEvent::Accepted,
                TransferEvent::Count { transfers: 1 },
                TransferEvent::Count { transfers: 0 },
            ],
            policy,
        ) == Phase::Idle,
{
    let start = Phase::Starting { selection, step: StartStep::Requested };
    let events = seq![
        TransferEvent::Accepted,
        TransferEvent::Count { transfers: 1 },
        TransferEvent::Count { transfers: 0 },
    ];
    let two = events.drop_last();
    let one = two.drop_last();
    assert(one.drop_last().len() == 0);
    assert(after_events(start, one.drop_last(), policy) == start);
    assert(after_events(start, one, policy) == Phase::InFlight {
        from: selection.from,
        stage: Stage::Registered,
    });
    assert(after_events(start, two, policy) == Phase::InFlight {
        from: selection.from,
        stage: Stage::Completed,
    });
}

/// A refused request is no fault: once the source reports no transfer
/// the coordinator selects again.
pub proof fn refused_transfer_returns_to_idle(selection: Selection, policy: PollPolicy)
    ensures
        advance_spec(
            Phase::Starting { selection, step: StartStep::Requested },
            TransferEvent::Refused,
            policy,
        ).0 == (Phase::InFlight { from: selection.from, stage: Stage::Settled }),
        advance_spec(
            Phase::InFlight { from: selection.from, stage: Stage::Settled },
            TransferEvent::Count { transfers: 0 },
            policy,
        ) == (Phase::Idle, TransferAction::Select),
{
}

/// A poll that ran out of time ends the run, whatever the stage, and
/// nothing leads out of that: a timeout is never retried.
pub proof fn timeout_is_final(
    from: usize,
    stage: Stage,
    elapsed_ms: u64,
    policy: PollPolicy,
    later: Seq<TransferEvent>,
)
    requires
        elapsed_ms > policy.max_ms,
    ensures
        advance_spec(Phase::InFlight { from, stage }, TransferEvent::Tick { elapsed_ms }, policy)
            == (Phase::Stuck, TransferAction::Abort),
        after_events(Phase::Stuck, later, policy) == Phase::Stuck,
    decreases later.len(),
{
    if later.len() > 0 {
        timeout_is_final(from, stage, elapsed_ms, policy, later.drop_last());
    }
}

} // verus!
