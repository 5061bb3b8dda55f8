//! The existence invariant: after a sweep a node holds exactly the
//! identifiers of the round's window.

use vstd::prelude::*;
use vstd::relations::{sorted_by, total_ordering};
use vstd::seq_lib::lemma_sorted_unique;
use crate::batches::copy_ids;
use crate::ranges::{format_ranges, ranges_text, runs};
use crate::text::{append_decimal, decimal};
use crate::window::Window;

verus! {

/// No identifier of `ids` is greater than a later one.
pub open spec fn ascending(ids: Seq<u64>) -> bool {
    forall|i: int, j: int| 0 <= i < j < ids.len() ==> ids[i] <= ids[j]
}

/// Every identifier of `ids` is less than each later one.
pub open spec fn strictly_ascending(ids: Seq<u64>) -> bool {
    forall|i: int, j: int| 0 <= i < j < ids.len() ==> ids[i] < ids[j]
}

/// The identifiers that do not occur in `ids`.
pub open spec fn absent_from(ids: Seq<u64>) -> spec_fn(u64) -> bool {
    |id: u64| !ids.contains(id)
}

/// The identifiers that lie outside `window`.
pub open spec fn outside(window: Window) -> spec_fn(u64) -> bool {
    |id: u64| !window.contains(id)
}

/// A node holds the window exactly: each identifier of the window once,
/// and no other.
pub open spec fn holds_exactly(ids: Seq<u64>, window: Window) -> bool {
    ids.to_multiset() == window.ids().to_multiset()
}

/// `<[u64]>::sort_unstable` of std: afterwards the vector holds what it
/// held before, each identifier as often as before, in ascending order.
#[verifier::external_body]
fn sort_ids(ids: &mut Vec<u64>)
    ensures
        final(ids)@.to_multiset() == old(ids)@.to_multiset(),
        ascending(final(ids)@),
{
    ids.sort_unstable();
}

/// In a strictly ascending list two identifiers are at least as far apart
/// as their places.
pub proof fn ascending_gap(ids: Seq<u64>, i: int, j: int)
    requires
        strictly_ascending(ids),
        0 <= i <= j < ids.len(),
    ensures
        ids[j] - ids[i] >= j - i,
    decreases j - i,
{
    if i < j {
        ascending_gap(ids, i, j - 1);
        assert(ids[j - 1] < ids[j]);
    }
}

/// A strictly ascending list that has the window's least identifier, its
/// greatest one and its length is the window.
pub proof fn bounds_pin_the_window(ids: Seq<u64>, window: Window)
    requires
        window.wf(),
        strictly_ascending(ids),
        ids.len() == window.width,
        ids.first() == window.start,
        ids.last() == window.start + window.width - 1,
    ensures
        ids == window.ids(),
{
    assert forall|k: int| 0 <= k < ids.len() implies ids[k] == window.ids()[k] by {
        ascending_gap(ids, 0, k);
        ascending_gap(ids, k, ids.len() - 1);
    }
    assert(ids =~= window.ids());
}

/// An ascending list that holds the window exactly is the window.
pub proof fn sorted_holder_is_the_window(ids: Seq<u64>, window: Window)
    requires
        window.wf(),
        ascending(ids),
        holds_exactly(ids, window),
    ensures
        ids == window.ids(),
{
    let leq = |a: u64, b: u64| a <= b;
    assert(sorted_by(ids, leq));
    assert(sorted_by(window.ids(), leq));
    assert(total_ordering(leq));
    lemma_sorted_unique(ids, window.ids(), leq);
}

/// What a node held where it did not hold the window exactly.
#[derive(Debug)]
pub struct ExistenceReport {
    /// The window that was expected.
    pub expected: Window,
    /// What the node held, ascending.
    pub observed: Vec<u64>,
    /// The identifiers of the window that the node did not hold, ascending.
    pub missing: Vec<u64>,
    /// What the node held outside the window, ascending.
    pub extra: Vec<u64>,
}

impl ExistenceReport {
    /// The report is the one for a node that held `ids` where `window` was
    /// expected.
    pub open spec fn describes(self, ids: Seq<u64>, window: Window) -> bool {
        &&& self.expected == window
        &&& self.observed@.to_multiset() == ids.to_multiset()
        &&& ascending(self.observed@)
        &&& self.missing@ == window.ids().filter(absent_from(ids))
        &&& self.extra@ == self.observed@.filter(outside(window))
    }

    /// What was observed: the ranges held, or the words for nothing.
    pub open spec fn observed_text(self) -> Seq<char> {
        if self.observed@.len() == 0 {
            "zero points"@
        } else {
            ranges_text(runs(self.observed@))
        }
    }

    /// The ranges that are missing, where any are.
    pub open spec fn missing_text(self) -> Seq<char> {
        if self.missing@.len() == 0 {
            Seq::empty()
        } else {
            ", missing "@ + ranges_text(runs(self.missing@))
        }
    }

    /// The ranges outside the window, where any are.
    pub open spec fn extra_text(self) -> Seq<char> {
        if self.extra@.len() == 0 {
            Seq::empty()
        } else {
            ", extra "@ + ranges_text(runs(self.extra@))
        }
    }

    /// The description of the mismatch: the expected window, the ranges
    /// held with their length against the window's, then the missing ranges
    /// and those outside the window.
    pub open spec fn text(self) -> Seq<char> {
        "expect "@ + decimal(self.expected.start as nat) + ".."@ + decimal(
            (self.expected.start + self.expected.width) as nat,
        ) + ", got "@ + self.observed_text() + " (len: "@ + decimal(self.observed@.len())
            + " vs "@ + decimal(self.expected.width as nat) + ")"@ + self.missing_text()
            + self.extra_text()
    }

    /// The description of the mismatch as a string.
    pub fn description(&self) -> (text: String)
        ensures
            text@ == self.text(),
    {
        let mut text = String::new();
        text.append("expect ");
        append_decimal(&mut text, self.expected.start as u128);
        text.append("..");
        append_decimal(&mut text, self.expected.start as u128 + self.expected.width as u128);
        text.append(", got ");
        if self.observed.len() == 0 {
            text.append("zero points");
        } else {
            let held = format_ranges(self.observed.as_slice());
            text.append(held.as_str());
        }
        text.append(" (len: ");
        append_decimal(&mut text, self.observed.len() as u128);
        text.append(" vs ");
        append_decimal(&mut text, self.expected.width as u128);
        text.append(")");
        if self.missing.len() > 0 {
            text.append(", missing ");
            let absent = format_ranges(self.missing.as_slice());
            text.append(absent.as_str());
        }
        if self.extra.len() > 0 {
            text.append(", extra ");
            let beyond = format_ranges(self.extra.as_slice());
            text.append(beyond.as_str());
        }
        assert(text@ =~= self.text());
        text
    }
}

/// A list in which every identifier is less than the next one is
/// strictly ascending.
pub proof fn rising_steps_ascend(ids: Seq<u64>, i: int, j: int)
    requires
        forall|k: int| 0 < k < ids.len() ==> ids[k - 1] < #[trigger] ids[k],
        0 <= i < j < ids.len(),
    ensures
        ids[i] < ids[j],
    decreases j - i,
{
    assert(ids[j - 1] < ids[j]);
    if i < j - 1 {
        rising_steps_ascend(ids, i, j - 1);
    }
}

/// Whether `ids` is strictly ascending: sorted, and no identifier twice.
pub fn has_no_repeat(ids: &Vec<u64>) -> (distinct: bool)
    ensures
        distinct == strictly_ascending(ids@),
{
    let mut i: usize = 1;
    while i < ids.len()
        invariant
            1 <= i,
            forall|k: int| 0 < k < i && k < ids@.len() ==> ids@[k - 1] < #[trigger] ids@[k],
        decreases ids.len() - i,
    {
        if ids[i - 1] >= ids[i] {
            return false;
        }
        i += 1;
    }
    proof {
        assert forall|a: int, b: int| 0 <= a < b < ids@.len() implies ids@[a] < ids@[b] by {
            rising_steps_ascend(ids@, a, b);
        }
    }
    true
}

/// The identifiers of `window` that the ascending list `sorted` lacks.
fn missing_from(sorted: &Vec<u64>, window: Window) -> (missing: Vec<u64>)
    requires
        window.wf(),
        ascending(sorted@),
    ensures
        missing@ == window.ids().filter(absent_from(sorted@)),
{
    let mut missing: Vec<u64> = Vec::new();
    let mut offset: u64 = 0;
    let mut at: usize = 0;
    proof {
        reveal(Seq::filter);
        assert(window.ids().subrange(0, 0) =~= Seq::<u64>::empty());
    }
    while offset < window.width
        invariant
            window.wf(),
            ascending(sorted@),
            offset <= window.width,
            at <= sorted@.len(),
            forall|k: int| 0 <= k < at ==> sorted@[k] < window.start + offset,
            missing@ == window.ids().subrange(0, offset as int).filter(absent_from(sorted@)),
        decreases window.width - offset,
    {
        let id: u64 = window.start + offset;
        while at < sorted.len() && sorted[at] < id
            invariant
                at <= sorted@.len(),
                forall|k: int| 0 <= k < at ==> sorted@[k] < id,
            decreases sorted@.len() - at,
        {
            at += 1;
        }
        let present: bool = at < sorted.len() && sorted[at] == id;
        proof {
            reveal(Seq::filter);
            let upto = window.ids().subrange(0, offset + 1);
            assert(upto.drop_last() =~= window.ids().subrange(0, offset as int));
            assert(upto.last() == id);
            if sorted@.contains(id) {
                let k = choose|k: int| 0 <= k < sorted@.len() && sorted@[k] == id;
                assert(k >= at);
                assert(at < sorted@.len());
                assert(k == at || sorted@[at as int] <= sorted@[k]);
            }
            assert(present == sorted@.contains(id));
        }
        if !present {
            missing.push(id);
        }
        offset += 1;
    }
    assert(window.ids().subrange(0, offset as int) =~= window.ids());
    missing
}

/// Whether `id` occurs in `ids`.
pub fn occurs_in(ids: &Vec<u64>, id: u64) -> (found: bool)
    ensures
        found == ids@.contains(id),
{
    let mut i: usize = 0;
    while i < ids.len()
        invariant
            i <= ids@.len(),
            forall|k: int| 0 <= k < i ==> ids@[k] != id,
        decreases ids@.len() - i,
    {
        if ids[i] == id {
            return true;
        }
        i += 1;
    }
    false
}

/// The identifiers of `asked` that are not among those `returned`, in the
/// order in which they were asked for.
pub fn unreturned(asked: &Vec<u64>, returned: &Vec<u64>) -> (missing: Vec<u64>)
    ensures
        missing@ == asked@.filter(absent_from(returned@)),
{
    let mut missing: Vec<u64> = Vec::new();
    let mut i: usize = 0;
    proof {
        reveal(Seq::filter);
        assert(asked@.subrange(0, 0) =~= Seq::<u64>::empty());
    }
    while i < asked.len()
        invariant
            i <= asked@.len(),
            missing@ == asked@.subrange(0, i as int).filter(absent_from(returned@)),
        decreases asked@.len() - i,
    {
        proof {
            reveal(Seq::filter);
            let upto = asked@.subrange(0, i + 1);
            assert(upto.drop_last() =~= asked@.subrange(0, i as int));
            assert(upto.last() == asked@[i as int]);
        }
        if !occurs_in(returned, asked[i]) {
            missing.push(asked[i]);
        }
        i += 1;
    }
    assert(asked@.subrange(0, i as int) =~= asked@);
    missing
}

/// The identifiers of `sorted` that lie outside `window`, in their order.
pub fn beyond(sorted: &Vec<u64>, window: Window) -> (extra: Vec<u64>)
    ensures
        extra@ == sorted@.filter(outside(window)),
{
    let mut extra: Vec<u64> = Vec::new();
    let mut i: usize = 0;
    proof {
        reveal(Seq::filter);
        assert(sorted@.subrange(0, 0) =~= Seq::<u64>::empty());
    }
    while i < sorted.len()
        invariant
            i <= sorted@.len(),
            extra@ == sorted@.subrange(0, i as int).filter(outside(window)),
        decreases sorted@.len() - i,
    {
        proof {
            reveal(Seq::filter);
            let upto = sorted@.subrange(0, i + 1);
            assert(upto.drop_last() =~= sorted@.subrange(0, i as int));
            assert(upto.last() == sorted@[i as int]);
        }
        if !window.holds(sorted[i]) {
            extra.push(sorted[i]);
        }
        i += 1;
    }
    assert(sorted@.subrange(0, i as int) =~= sorted@);
    extra
}

/// Checks what one node holds against the window of the round. The
/// identifiers are sorted; they pass where none occurs twice and their
/// least, their greatest and their number are the window's. Against an
/// empty window a node passes where it holds nothing. Otherwise the
/// report names what was held, what is missing and what is outside.
pub fn check_existence(ids: &Vec<u64>, window: Window) -> (verdict: Result<(), ExistenceReport>)
    requires
        window.wf(),
    ensures
        verdict is Ok <==> holds_exactly(ids@, window),
        verdict is Err ==> verdict.unwrap_err().describes(ids@, window),
{
    let mut sorted = copy_ids(ids);
    sort_ids(&mut sorted);
    proof {
        vstd::seq_lib::to_multiset_len(sorted@);
        vstd::seq_lib::to_multiset_len(ids@);
    }
    let count: usize = sorted.len();
    if count == 0 && window.width == 0 {
        assert(sorted@ =~= window.ids());
        return Ok(());
    }
    if count > 0 && window.width > 0 {
        let distinct = has_no_repeat(&sorted);
        let least: u64 = sorted[0];
        let greatest: u64 = sorted[count - 1];
        let wrong_lowest = least != window.start;
        let wrong_highest = greatest != window.start + (window.width - 1);
        let wrong_count = count as u64 != window.width;
        if distinct && !wrong_lowest && !wrong_highest && !wrong_count {
            proof {
                bounds_pin_the_window(sorted@, window);
            }
            return Ok(());
        }
    }
    proof {
        if holds_exactly(ids@, window) {
            sorted_holder_is_the_window(sorted@, window);
            assert(sorted@.len() == window.width);
            assert(count > 0);
            assert(sorted@[0] == window.ids()[0]);
            assert(sorted@[count - 1] == window.ids()[count - 1]);
            assert(strictly_ascending(sorted@));
            assert(false);
        }
        assert forall|id: u64| sorted@.contains(id) == ids@.contains(id) by {
            vstd::seq_lib::to_multiset_contains(sorted@, id);
            vstd::seq_lib::to_multiset_contains(ids@, id);
        }
        assert(absent_from(sorted@) =~= absent_from(ids@));
    }
    let missing = missing_from(&sorted, window);
    let extra = beyond(&sorted, window);
    Err(ExistenceReport { expected: window, observed: sorted, missing, extra })
}

} // verus!
