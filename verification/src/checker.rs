//! The consistency checker: one check cycle over all nodes, and the retry
//! loop that tells a cluster that is catching up from one that never
//! converges.

use vstd::prelude::*;
use crate::counters::{
    check_scalar, is_fault_of, latest, passes, passing_node_has_every_counter, CounterReading,
    ScalarFault,
};
use crate::cross_node::{
    all_same_length, are_tallies_of, compare_adjacent, first_short_pair, is_first_fault,
    is_first_short, pair_matches, Observed, PairTally, StructuralFault,
};
use crate::existence::{check_existence, holds_exactly, ExistenceReport};
use crate::window::Window;

verus! {

/// What follows one check cycle.
#[derive(Clone, Copy, Debug, PartialEq, Eq, Structural)]
pub enum CheckStep {
    /// Every node passed. The loop ends; the lock is released where the
    /// loop had taken it.
    Pass { release_lock: bool },
    /// Some node failed and attempts are left: the lock is taken where the
    /// loop does not hold it yet, and the cycle is run again after the
    /// delay.
    Retry { acquire_lock: bool, delay_ms: u64 },
    /// Some node failed and no attempt is left: the inconsistency is
    /// confirmed. The lock is taken where the loop does not hold it yet,
    /// and released as the loop ends.
    Fail { acquire_lock: bool },
}

/// The state of one retry loop of the checker.
#[derive(Clone, Copy, Debug, PartialEq, Eq, Structural)]
pub struct CheckLoop {
    /// The cycles that may still be run.
    pub attempts_left: usize,
    /// Whether the loop holds the transfer lock.
    pub holds_lock: bool,
    /// The delay between two cycles.
    pub delay_ms: u64,
}

impl CheckLoop {
    /// The state that follows a cycle, and what to do next. `clean` says
    /// whether every node passed.
    pub open spec fn step(self, clean: bool) -> (CheckLoop, CheckStep) {
        if clean {
            (
                CheckLoop { attempts_left: 0, holds_lock: false, delay_ms: self.delay_ms },
                CheckStep::Pass { release_lock: self.holds_lock },
            )
        } else if self.attempts_left > 1 {
            (
                CheckLoop {
                    attempts_left: (self.attempts_left - 1) as usize,
                    holds_lock: true,
                    delay_ms: self.delay_ms,
                },
                CheckStep::Retry { acquire_lock: !self.holds_lock, delay_ms: self.delay_ms },
            )
        } else {
            (
                CheckLoop { attempts_left: 0, holds_lock: false, delay_ms: self.delay_ms },
                CheckStep::Fail { acquire_lock: !self.holds_lock },
            )
        }
    }

    /// The state after `failures` cycles in each of which some node failed.
    pub open spec fn after_failures(self, failures: nat) -> CheckLoop
        decreases failures,
    {
        if failures == 0 {
            self
        } else {
            self.after_failures((failures - 1) as nat).step(false).0
        }
    }

    /// A loop of up to `max_attempts` cycles, `delay_ms` milliseconds
    /// apart. It does not hold the lock.
    pub fn begin(max_attempts: usize, delay_ms: u64) -> (state: CheckLoop)
        ensures
            state == (CheckLoop { attempts_left: max_attempts, holds_lock: false, delay_ms }),
    {
        CheckLoop { attempts_left: max_attempts, holds_lock: false, delay_ms }
    }

    /// Whether a cycle may be run. A loop of no attempts runs none and
    /// ends in failure with nothing to report.
    pub fn may_check(&self) -> (open: bool)
        ensures
            open == (self.attempts_left > 0),
    {
        self.attempts_left > 0
    }

    /// Records how a cycle ended and says what follows.
    pub fn record(&mut self, clean: bool) -> (next: CheckStep)
        ensures
            (*final(self), next) == old(self).step(clean),
    {
        let held = self.holds_lock;
        if clean {
            self.attempts_left = 0;
            self.holds_lock = false;
            CheckStep::Pass { release_lock: held }
        } else if self.attempts_left > 1 {
            self.attempts_left = self.attempts_left - 1;
            self.holds_lock = true;
            CheckStep::Retry { acquire_lock: !held, delay_ms: self.delay_ms }
        } else {
            self.attempts_left = 0;
            self.holds_lock = false;
            CheckStep::Fail { acquire_lock: !held }
        }
    }
}

/// A loop whose first cycle passes never touches the lock.
pub proof fn clean_first_cycle_leaves_the_lock(max_attempts: usize, delay_ms: u64)
    ensures
        (CheckLoop { attempts_left: max_attempts, holds_lock: false, delay_ms }).step(true).1 == (
        CheckStep::Pass { release_lock: false }),
{
}

/// The lock is taken at the first failure and held from then on: after
/// one failure or more, with attempts left, the loop holds the lock, a
/// further failure does not take it again, and a pass releases it.
pub proof fn lock_is_taken_once(start: CheckLoop, failures: nat)
    requires
        !start.holds_lock,
        failures < start.attempts_left,
    ensures
        start.after_failures(failures) == (CheckLoop {
            attempts_left: (start.attempts_left - failures) as usize,
            holds_lock: failures > 0,
            delay_ms: start.delay_ms,
        }),
        start.after_failures(failures).step(false).1 == (if failures + 1 < start.attempts_left {
            CheckStep::Retry { acquire_lock: failures == 0, delay_ms: start.delay_ms }
        } else {
            CheckStep::Fail { acquire_lock: failures == 0 }
        }),
        start.after_failures(failures).step(true).1 == (CheckStep::Pass {
            release_lock: failures > 0,
        }),
    decreases failures,
{
    if failures > 0 {
        lock_is_taken_once(start, (failures - 1) as nat);
    }
}

/// The windows that the nodes hold are checked one by one: the finding
/// of node `i` is at place `i`, and is nothing where the node holds the
/// window exactly.
pub open spec fn are_existence_findings(
    findings: Seq<Option<ExistenceReport>>,
    nodes: Seq<Vec<u64>>,
    window: Window,
) -> bool {
    &&& findings.len() == nodes.len()
    &&& forall|i: int|
        0 <= i < nodes.len() ==> #[trigger] is_existence_finding(findings[i], nodes[i]@, window)
}

/// `finding` is what the check of one node that holds `ids` gives.
pub open spec fn is_existence_finding(
    finding: Option<ExistenceReport>,
    ids: Seq<u64>,
    window: Window,
) -> bool {
    &&& finding is None <==> holds_exactly(ids, window)
    &&& finding is Some ==> finding.unwrap().describes(ids, window)
}

/// One check cycle of the existence invariant: what each node holds is
/// checked against the window.
pub fn existence_cycle(nodes: &Vec<Vec<u64>>, window: Window) -> (findings: Vec<
    Option<ExistenceReport>,
>)
    requires
        window.wf(),
    ensures
        are_existence_findings(findings@, nodes@, window),
{
    let mut findings: Vec<Option<ExistenceReport>> = Vec::new();
    let mut i: usize = 0;
    while i < nodes.len()
        invariant
            window.wf(),
            i <= nodes@.len(),
            findings@.len() == i,
            forall|k: int|
                0 <= k < i ==> #[trigger] is_existence_finding(findings@[k], nodes@[k]@, window),
        decreases nodes@.len() - i,
    {
        let finding = match check_existence(&nodes[i], window) {
            Ok(()) => None,
            Err(report) => Some(report),
        };
        assert(is_existence_finding(finding, nodes@[i as int]@, window));
        findings.push(finding);
        i += 1;
    }
    findings
}

/// `finding` is what the check of the counters `readings` that one node
/// returned for `asked` gives: nothing where the node passes, else its
/// fault.
pub open spec fn is_scalar_finding(
    finding: Option<ScalarFault>,
    asked: Seq<u64>,
    readings: Seq<CounterReading>,
    expected: i64,
) -> bool {
    &&& finding is None <==> passes(asked, readings, expected)
    &&& finding is Some ==> is_fault_of(finding.unwrap(), asked, readings, expected)
}

/// The finding of node `i` is at place `i`.
pub open spec fn are_scalar_findings(
    findings: Seq<Option<ScalarFault>>,
    asked: Seq<u64>,
    nodes: Seq<Vec<CounterReading>>,
    expected: i64,
) -> bool {
    &&& findings.len() == nodes.len()
    &&& forall|i: int|
        0 <= i < nodes.len() ==> #[trigger] is_scalar_finding(
            findings[i],
            asked,
            nodes[i]@,
            expected,
        )
}

/// One check cycle of the scalar invariant: every node was asked for the
/// counters of `asked`, and what each returned is checked against the
/// expected counter. A node that left an identifier out fails.
pub fn scalar_cycle(asked: &Vec<u64>, nodes: &Vec<Vec<CounterReading>>, expected: i64) -> (findings:
    Vec<Option<ScalarFault>>)
    ensures
        are_scalar_findings(findings@, asked@, nodes@, expected),
{
    let mut findings: Vec<Option<ScalarFault>> = Vec::new();
    let mut i: usize = 0;
    while i < nodes.len()
        invariant
            i <= nodes@.len(),
            findings@.len() == i,
            forall|k: int|
                0 <= k < i ==> #[trigger] is_scalar_finding(
                    findings@[k],
                    asked@,
                    nodes@[k]@,
                    expected,
                ),
        decreases nodes@.len() - i,
    {
        let finding = match check_scalar(asked, &nodes[i], expected) {
            Ok(()) => None,
            Err(fault) => Some(fault),
        };
        assert(is_scalar_finding(finding, asked@, nodes@[i as int]@, expected));
        findings.push(finding);
        i += 1;
    }
    findings
}

/// Why the nodes cannot be compared with each other. Neither is retried:
/// the run ends.
#[derive(Clone, Copy, Debug, PartialEq, Eq, Structural)]
pub enum CrossNodeFault {
    /// The nodes `pair` and `pair + 1` returned different numbers of
    /// points: `left` and `right`.
    Short { pair: usize, left: usize, right: usize },
    /// Two nodes returned different identifiers at one place.
    Split { fault: StructuralFault },
}

/// Every pair of neighbours returned the same identifiers at every place
/// that both have.
pub open spec fn all_pairs_match(nodes: Seq<Vec<Observed>>) -> bool {
    forall|i: int| 0 <= i < nodes.len() - 1 ==> #[trigger] pair_matches(nodes, i)
}

/// `fault` is what ends the comparison of `nodes`: the first pair of
/// different lengths or, where all nodes returned equally many points,
/// the first place with different identifiers.
pub open spec fn is_cross_node_fault(fault: CrossNodeFault, nodes: Seq<Vec<Observed>>) -> bool {
    match fault {
        CrossNodeFault::Short { pair, left, right } => is_first_short(nodes, pair as int) && left
            == nodes[pair as int]@.len() && right == nodes[pair + 1]@.len(),
        CrossNodeFault::Split { fault } => all_same_length(nodes) && is_first_fault(
            nodes,
            fault,
        ),
    }
}

/// One check cycle of cross-node equality, on points that are ordered by
/// identifier: every node must have returned as many points as its
/// neighbour, and the same identifier at every place; then the vectors
/// and payloads of each pair of neighbours are compared and counted.
pub fn cross_node_cycle(nodes: &Vec<Vec<Observed>>) -> (result: Result<
    Vec<PairTally>,
    CrossNodeFault,
>)
    ensures
        result is Ok <==> all_same_length(nodes@) && all_pairs_match(nodes@),
        result is Ok ==> are_tallies_of(result.unwrap()@, nodes@),
        result is Err ==> is_cross_node_fault(result.unwrap_err(), nodes@),
{
    let short = first_short_pair(nodes);
    match short {
        Some(pair) => {
            let count: usize = nodes.len();
            assert(is_first_short(nodes@, pair as int));
            assert(pair + 1 < count);
            let left = nodes[pair].len();
            let right = nodes[pair + 1].len();
            let fault = CrossNodeFault::Short { pair, left, right };
            assert(!crate::cross_node::same_length(nodes@, pair as int));
            return Err(fault);
        },
        None => {},
    }
    match compare_adjacent(nodes) {
        Ok(tallies) => Ok(tallies),
        Err(fault) => {
            assert(!pair_matches(nodes@, fault.pair as int));
            Err(CrossNodeFault::Split { fault })
        },
    }
}

/// `description` is the text of `finding`, where there is one.
pub open spec fn describes_existence(
    description: Option<String>,
    finding: Option<ExistenceReport>,
) -> bool {
    match finding {
        Some(report) => description is Some && description.unwrap()@ == report.text(),
        None => description is None,
    }
}

/// `description` is the text of `finding`, where there is one.
pub open spec fn describes_scalar(
    description: Option<String>,
    finding: Option<ScalarFault>,
) -> bool {
    match finding {
        Some(fault) => description is Some && description.unwrap()@ == fault.text(),
        None => description is None,
    }
}

/// The descriptions of the findings of an existence cycle, node by node.
pub fn existence_descriptions(findings: &Vec<Option<ExistenceReport>>) -> (descriptions: Vec<
    Option<String>,
>)
    ensures
        descriptions@.len() == findings@.len(),
        forall|i: int|
            0 <= i < findings@.len() ==> #[trigger] describes_existence(
                descriptions@[i],
                findings@[i],
            ),
{
    let mut descriptions: Vec<Option<String>> = Vec::new();
    let mut i: usize = 0;
    while i < findings.len()
        invariant
            i <= findings@.len(),
            descriptions@.len() == i,
            forall|k: int|
                0 <= k < i ==> #[trigger] describes_existence(descriptions@[k], findings@[k]),
        decreases findings@.len() - i,
    {
        let description = match &findings[i] {
            Some(report) => Some(report.description()),
            None => None,
        };
        assert(describes_existence(description, findings@[i as int]));
        descriptions.push(description);
        i += 1;
    }
    descriptions
}

/// The descriptions of the findings of a scalar cycle, node by node.
pub fn scalar_descriptions(findings: &Vec<Option<ScalarFault>>) -> (descriptions: Vec<
    Option<String>,
>)
    ensures
        descriptions@.len() == findings@.len(),
        forall|i: int|
            0 <= i < findings@.len() ==> #[trigger] describes_scalar(
                descriptions@[i],
                findings@[i],
            ),
{
    let mut descriptions: Vec<Option<String>> = Vec::new();
    let mut i: usize = 0;
    while i < findings.len()
        invariant
            i <= findings@.len(),
            descriptions@.len() == i,
            forall|k: int|
                0 <= k < i ==> #[trigger] describes_scalar(descriptions@[k], findings@[k]),
        decreases findings@.len() - i,
    {
        let description = match &findings[i] {
            Some(fault) => Some(fault.description()),
            None => None,
        };
        assert(describes_scalar(description, findings@[i as int]));
        descriptions.push(description);
        i += 1;
    }
    descriptions
}

/// A cycle of the existence invariant without a finding says that every
/// node holds the window exactly: each identifier of it once, none else.
pub proof fn clean_existence_cycle_means_every_node_holds_the_window(
    findings: Seq<Option<ExistenceReport>>,
    nodes: Seq<Vec<u64>>,
    window: Window,
    node: int,
)
    requires
        window.wf(),
        are_existence_findings(findings, nodes, window),
        forall|i: int| 0 <= i < findings.len() ==> (#[trigger] findings[i]) is None,
        0 <= node < nodes.len(),
    ensures
        holds_exactly(nodes[node]@, window),
        nodes[node]@.no_duplicates(),
        forall|id: u64| nodes[node]@.contains(id) <==> window.contains(id),
{
    assert(is_existence_finding(findings[node], nodes[node]@, window));
    let ids = nodes[node]@;
    crate::driver::window_ids_are_unique(window);
    assert forall|id: u64| ids.contains(id) <==> window.contains(id) by {
        vstd::seq_lib::to_multiset_contains(ids, id);
        vstd::seq_lib::to_multiset_contains(window.ids(), id);
    }
    window.ids().lemma_multiset_has_no_duplicates();
    ids.lemma_multiset_has_no_duplicates_conv();
}

/// A cycle of the scalar invariant without a finding says that every
/// node has the expected counter for every identifier asked for.
pub proof fn clean_scalar_cycle_means_every_counter_is_expected(
    findings: Seq<Option<ScalarFault>>,
    asked: Seq<u64>,
    nodes: Seq<Vec<CounterReading>>,
    expected: i64,
    node: int,
    place: int,
)
    requires
        are_scalar_findings(findings, asked, nodes, expected),
        forall|i: int| 0 <= i < findings.len() ==> (#[trigger] findings[i]) is None,
        0 <= node < nodes.len(),
        0 <= place < asked.len(),
    ensures
        latest(nodes[node]@, asked[place]) == Some(expected),
{
    assert(is_scalar_finding(findings[node], asked, nodes[node]@, expected));
    passing_node_has_every_counter(asked, nodes[node]@, expected, place);
}

} // verus!
