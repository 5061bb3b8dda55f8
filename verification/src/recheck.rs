//! The payload recheck: the identifiers are compared across the nodes a
//! batch at a time, and those on which the nodes disagree are asked for
//! again, together with fresh ones, until none is left.

use std::collections::HashMap;
use vstd::prelude::*;
use vstd::std_specs::hash::group_hash_axioms;
use crate::batches::lesser;
use crate::cross_node::same_bytes;

verus! {

/// The payload that a node returned for one identifier.
#[derive(Debug)]
pub struct PayloadReading {
    pub id: u64,
    pub payload: Vec<u8>,
}

/// The payload that `readings` gives for `id`: that of the last reading of
/// the identifier, if there is one.
pub open spec fn payload_of(readings: Seq<PayloadReading>, id: u64) -> Option<Seq<u8>>
    decreases readings.len(),
{
    if readings.len() == 0 {
        None
    } else if readings.last().id == id {
        Some(readings.last().payload@)
    } else {
        payload_of(readings.drop_last(), id)
    }
}

/// The nodes `n` and `n + 1` gave the same for `id`: the same payload, or
/// both none.
pub open spec fn neighbours_agree(nodes: Seq<Vec<PayloadReading>>, n: int, id: u64) -> bool {
    payload_of(nodes[n]@, id) == payload_of(nodes[n + 1]@, id)
}

/// Every node gave the same for `id` as its neighbour.
pub open spec fn agrees_on(nodes: Seq<Vec<PayloadReading>>, id: u64) -> bool {
    forall|n: int| 0 <= n < nodes.len() - 1 ==> #[trigger] neighbours_agree(nodes, n, id)
}

/// The identifiers among the first `n` of `ids` whose flag is set, in
/// order.
pub open spec fn flagged(ids: Seq<u64>, flags: Seq<bool>, n: int) -> Seq<u64>
    decreases n,
{
    if n <= 0 {
        Seq::empty()
    } else if flags[n - 1] {
        flagged(ids, flags, n - 1).push(ids[n - 1])
    } else {
        flagged(ids, flags, n - 1)
    }
}

/// `places` says of `id` what `readings` does: where the identifier has
/// a reading, the place of its last one; else nothing.
pub open spec fn place_fits(places: Map<u64, usize>, readings: Seq<PayloadReading>, id: u64) -> bool {
    if places.contains_key(id) {
        &&& places[id] < readings.len()
        &&& readings[places[id] as int].id == id
        &&& payload_of(readings, id) == Some(readings[places[id] as int].payload@)
    } else {
        payload_of(readings, id) is None
    }
}

/// `places` maps each identifier that has a reading to the place of its
/// last reading, and no other identifier.
pub open spec fn holds_places(places: Map<u64, usize>, readings: Seq<PayloadReading>) -> bool {
    forall|id: u64| #[trigger] place_fits(places, readings, id)
}

/// Each of `indexes` holds the places of the node with its number.
pub open spec fn are_indexes_of(
    indexes: Seq<HashMap<u64, usize>>,
    nodes: Seq<Vec<PayloadReading>>,
) -> bool {
    &&& indexes.len() == nodes.len()
    &&& forall|n: int| 0 <= n < nodes.len() ==> holds_places((#[trigger] indexes[n])@, nodes[n]@)
}

/// The readings of one node as a map from identifier to the place of its
/// reading. Where an identifier was returned more than once its last
/// reading counts.
pub fn index_payloads(readings: &Vec<PayloadReading>) -> (places: HashMap<u64, usize>)
    ensures
        holds_places(places@, readings@),
{
    broadcast use group_hash_axioms;

    let mut places: HashMap<u64, usize> = HashMap::new();
    let mut i: usize = 0;
    assert(readings@.subrange(0, 0) =~= Seq::<PayloadReading>::empty());
    assert forall|id: u64| #[trigger] place_fits(places@, readings@.subrange(0, 0), id) by {}
    while i < readings.len()
        invariant
            i <= readings@.len(),
            holds_places(places@, readings@.subrange(0, i as int)),
        decreases readings@.len() - i,
    {
        let ghost before = places@;
        let ghost upto = readings@.subrange(0, i + 1);
        assert(upto.last() == readings@[i as int]);
        assert(upto.drop_last() =~= readings@.subrange(0, i as int));
        places.insert(readings[i].id, i);
        assert forall|id: u64| #[trigger] place_fits(places@, upto, id) by {
            assert(place_fits(before, upto.drop_last(), id));
            if id != readings@[i as int].id && before.contains_key(id) {
                assert(upto[before[id] as int] == upto.drop_last()[before[id] as int]);
            }
        }
        i += 1;
    }
    assert(readings@.subrange(0, i as int) =~= readings@);
    places
}

/// The maps of all nodes, node by node.
pub fn index_nodes(nodes: &Vec<Vec<PayloadReading>>) -> (indexes: Vec<HashMap<u64, usize>>)
    ensures
        are_indexes_of(indexes@, nodes@),
{
    let mut indexes: Vec<HashMap<u64, usize>> = Vec::new();
    let mut n: usize = 0;
    while n < nodes.len()
        invariant
            n <= nodes@.len(),
            indexes@.len() == n,
            forall|k: int| 0 <= k < n ==> holds_places((#[trigger] indexes@[k])@, nodes@[k]@),
        decreases nodes@.len() - n,
    {
        let places = index_payloads(&nodes[n]);
        indexes.push(places);
        n += 1;
    }
    indexes
}

/// The place that `places` holds for `id`.
pub fn find_payload(places: &HashMap<u64, usize>, id: u64) -> (place: Option<usize>)
    ensures
        place == if places@.contains_key(id) {
            Some(places@[id])
        } else {
            None::<usize>
        },
{
    broadcast use group_hash_axioms;

    match places.get(&id) {
        Some(place) => Some(*place),
        None => None,
    }
}

fn same_indexed(
    a: &Vec<PayloadReading>,
    a_places: &HashMap<u64, usize>,
    b: &Vec<PayloadReading>,
    b_places: &HashMap<u64, usize>,
    id: u64,
) -> (same: bool)
    requires
        holds_places(a_places@, a@),
        holds_places(b_places@, b@),
    ensures
        same == (payload_of(a@, id) == payload_of(b@, id)),
{
    assert(place_fits(a_places@, a@, id));
    assert(place_fits(b_places@, b@, id));
    match (find_payload(a_places, id), find_payload(b_places, id)) {
        (None, None) => true,
        (Some(i), Some(j)) => same_bytes(&a[i].payload, &b[j].payload),
        _ => false,
    }
}

fn agree_indexed(
    nodes: &Vec<Vec<PayloadReading>>,
    indexes: &Vec<HashMap<u64, usize>>,
    id: u64,
) -> (agreed: bool)
    requires
        are_indexes_of(indexes@, nodes@),
    ensures
        agreed == agrees_on(nodes@, id),
{
    if nodes.len() < 2 {
        return true;
    }
    let pairs: usize = nodes.len() - 1;
    let mut n: usize = 0;
    while n < pairs
        invariant
            are_indexes_of(indexes@, nodes@),
            pairs == nodes@.len() - 1,
            n <= pairs,
            forall|k: int| 0 <= k < n ==> #[trigger] neighbours_agree(nodes@, k, id),
        decreases pairs - n,
    {
        assert(holds_places(indexes@[n as int]@, nodes@[n as int]@));
        assert(holds_places(indexes@[n + 1]@, nodes@[n + 1]@));
        if !same_indexed(&nodes[n], &indexes[n], &nodes[n + 1], &indexes[n + 1], id) {
            assert(!neighbours_agree(nodes@, n as int, id));
            return false;
        }
        n += 1;
    }
    true
}

/// Whether two nodes gave the same for `id`.
pub fn same_payload(a: &Vec<PayloadReading>, b: &Vec<PayloadReading>, id: u64) -> (same: bool)
    ensures
        same == (payload_of(a@, id) == payload_of(b@, id)),
{
    let a_places = index_payloads(a);
    let b_places = index_payloads(b);
    same_indexed(a, &a_places, b, &b_places, id)
}

/// Whether all nodes gave the same for `id`, neighbour by neighbour.
pub fn all_agree_on(nodes: &Vec<Vec<PayloadReading>>, id: u64) -> (agreed: bool)
    ensures
        agreed == agrees_on(nodes@, id),
{
    let indexes = index_nodes(nodes);
    agree_indexed(nodes, &indexes, id)
}

/// For each of `ids`, whether the nodes disagree on it.
pub fn disagreements(ids: &Vec<u64>, nodes: &Vec<Vec<PayloadReading>>) -> (flags: Vec<bool>)
    ensures
        flags@.len() == ids@.len(),
        forall|i: int| 0 <= i < ids@.len() ==> #[trigger] flags@[i] == !agrees_on(nodes@, ids@[i]),
{
    let indexes = index_nodes(nodes);
    let mut flags: Vec<bool> = Vec::new();
    let mut i: usize = 0;
    while i < ids.len()
        invariant
            are_indexes_of(indexes@, nodes@),
            i <= ids@.len(),
            flags@.len() == i,
            forall|k: int| 0 <= k < i ==> #[trigger] flags@[k] == !agrees_on(nodes@, ids@[k]),
        decreases ids@.len() - i,
    {
        let agreed = agree_indexed(nodes, &indexes, ids[i]);
        flags.push(!agreed);
        i += 1;
    }
    flags
}

/// The identifiers that are still to be compared.
#[derive(Debug)]
pub struct Recheck {
    /// Those that were not asked for yet. They are taken from the end.
    pub remaining: Vec<u64>,
    /// Those that are asked for next.
    pub current: Vec<u64>,
    /// How many may be asked for at a time.
    pub batch: usize,
    /// How many rounds found a disagreement.
    pub retries: u64,
}

impl Recheck {
    /// No more are asked for at a time than the batch allows.
    pub open spec fn wf(self) -> bool {
        self.current@.len() <= self.batch
    }

    /// How many identifiers move from `remaining` to `current` where
    /// `again` of the current ones are asked for again: as many as the
    /// batch has room for, as far as any remain.
    pub open spec fn refill(self, again: int) -> int {
        if again >= self.batch {
            0
        } else {
            lesser(self.batch - again, self.remaining@.len() as int)
        }
    }

    /// For each current identifier, whether `nodes` disagree on it.
    pub open spec fn flags(self, nodes: Seq<Vec<PayloadReading>>) -> Seq<bool> {
        Seq::new(self.current@.len(), |i: int| !agrees_on(nodes, self.current@[i]))
    }

    /// The current identifiers on which `nodes` disagree, in order.
    pub open spec fn disputed(self, nodes: Seq<Vec<PayloadReading>>) -> Seq<u64> {
        flagged(self.current@, self.flags(nodes), self.current@.len() as int)
    }

    /// All of `ids` are to be compared, up to `batch` at a time: the first
    /// batch is the end of the list.
    pub fn begin(ids: Vec<u64>, batch: usize) -> (recheck: Recheck)
        ensures
            recheck.wf(),
            recheck.batch == batch,
            recheck.retries == 0,
            recheck.remaining@ == ids@.subrange(0, ids@.len() - lesser(batch as int, ids@.len() as int)),
            recheck.current@ == ids@.subrange(
                ids@.len() - lesser(batch as int, ids@.len() as int),
                ids@.len() as int,
            ),
    {
        let mut remaining = ids;
        let at: usize = if remaining.len() > batch {
            remaining.len() - batch
        } else {
            0
        };
        let current = remaining.split_off(at);
        Recheck { remaining, current, batch, retries: 0 }
    }

    /// Whether nothing is left to compare.
    pub fn is_done(&self) -> (done: bool)
        ensures
            done == (self.remaining@.len() == 0 && self.current@.len() == 0),
    {
        self.remaining.len() == 0 && self.current.len() == 0
    }

    /// Takes in what the nodes returned for the current identifiers. Those
    /// on which they disagree are asked for again; the room that the
    /// others leave is filled from the end of what remains. A comparison
    /// with a disagreement counts as a retry.
    pub fn settle(&mut self, nodes: &Vec<Vec<PayloadReading>>)
        ensures
            final(self).batch == old(self).batch,
            old(self).wf() ==> final(self).wf(),
            final(self).current@ == old(self).disputed(nodes@) + old(self).remaining@.subrange(
                old(self).remaining@.len() - old(self).refill(
                    old(self).disputed(nodes@).len() as int,
                ),
                old(self).remaining@.len() as int,
            ),
            final(self).remaining@ == old(self).remaining@.subrange(
                0,
                old(self).remaining@.len() - old(self).refill(
                    old(self).disputed(nodes@).len() as int,
                ),
            ),
            final(self).current@.len() + final(self).remaining@.len() == old(self).disputed(
                nodes@,
            ).len() + old(self).remaining@.len(),
            final(self).retries == if old(self).disputed(nodes@).len() > 0 && old(self).retries
                < u64::MAX {
                (old(self).retries + 1) as u64
            } else {
                old(self).retries
            },
    {
        let flags = disagreements(&self.current, nodes);
        assert(flags@ =~= self.flags(nodes@));
        let mut again: Vec<u64> = Vec::new();
        let mut i: usize = 0;
        while i < flags.len()
            invariant
                flags@.len() == self.current@.len(),
                i <= flags@.len(),
                again@ == flagged(self.current@, flags@, i as int),
                again@.len() <= i,
            decreases flags@.len() - i,
        {
            if flags[i] {
                again.push(self.current[i]);
            }
            i += 1;
        }
        if again.len() > 0 && self.retries < u64::MAX {
            self.retries = self.retries + 1;
        }
        let room: usize = if again.len() >= self.batch {
            0
        } else {
            self.batch - again.len()
        };
        let at: usize = if self.remaining.len() > room {
            self.remaining.len() - room
        } else {
            0
        };
        let mut fresh = self.remaining.split_off(at);
        again.append(&mut fresh);
        self.current = again;
    }
}

/// Where the nodes agree on every current identifier, none is asked for
/// again and the next batch is taken from what remains: the work goes on,
/// and it is done once nothing remains.
pub proof fn agreement_moves_on(before: Recheck, nodes: Seq<Vec<PayloadReading>>)
    requires
        forall|i: int| 0 <= i < before.current@.len() ==> agrees_on(nodes, #[trigger] before.current@[i]),
    ensures
        before.disputed(nodes).len() == 0,
        before.refill(0) == lesser(before.batch as int, before.remaining@.len() as int),
{
    none_flagged(before.current@, before.flags(nodes), before.current@.len() as int);
}

proof fn none_flagged(ids: Seq<u64>, flags: Seq<bool>, n: int)
    requires
        0 <= n <= flags.len(),
        forall|i: int| 0 <= i < flags.len() ==> !(#[trigger] flags[i]),
    ensures
        flagged(ids, flags, n).len() == 0,
    decreases n,
{
    if n > 0 {
        none_flagged(ids, flags, n - 1);
    }
}

} // verus!
