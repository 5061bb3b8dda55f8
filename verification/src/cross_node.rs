//! Cross-node equality: what one node returns for an identifier must be
//! what its neighbour returns. Nodes are compared in adjacent pairs.

use vstd::prelude::*;
use crate::batches::lesser;
use crate::text::{append_decimal, decimal};

verus! {

/// What a node returned for one point. Payload and vector are held in an
/// encoding that is equal exactly where the values are.
#[derive(Debug)]
pub struct Observed {
    pub id: u64,
    pub payload: Vec<u8>,
    pub vector: Vec<u8>,
}

/// The counts of one adjacent pair of nodes.
#[derive(Clone, Copy, Debug, PartialEq, Eq, Structural)]
pub struct PairTally {
    /// The places that both nodes have.
    pub compared: usize,
    /// The places at which the vectors differ.
    pub vector_mismatches: usize,
    /// The places at which the payloads differ.
    pub payload_mismatches: usize,
}

/// Two nodes returned different identifiers at the same place of the scan.
#[derive(Clone, Copy, Debug, PartialEq, Eq, Structural)]
pub struct StructuralFault {
    /// The pair: the nodes `pair` and `pair + 1`.
    pub pair: usize,
    /// The place in the scan.
    pub position: usize,
    /// The identifier that node `pair` returned there.
    pub left_id: u64,
    /// The identifier that node `pair + 1` returned there.
    pub right_id: u64,
}

/// The number of places that two nodes are compared at: those that both
/// have.
pub open spec fn compared(a: Seq<Observed>, b: Seq<Observed>) -> int {
    lesser(a.len() as int, b.len() as int)
}

/// The identifiers of two nodes are the same at each of the first `n`
/// places.
pub open spec fn ids_match(a: Seq<Observed>, b: Seq<Observed>, n: int) -> bool {
    forall|p: int| 0 <= p < n ==> (#[trigger] a[p]).id == b[p].id
}

/// The number of places among the first `n` at which the vectors differ.
pub open spec fn vector_mismatches(a: Seq<Observed>, b: Seq<Observed>, n: int) -> int
    decreases n,
{
    if n <= 0 {
        0
    } else {
        vector_mismatches(a, b, n - 1) + if a[n - 1].vector@ != b[n - 1].vector@ {
            1int
        } else {
            0int
        }
    }
}

/// The number of places among the first `n` at which the payloads differ.
pub open spec fn payload_mismatches(a: Seq<Observed>, b: Seq<Observed>, n: int) -> int
    decreases n,
{
    if n <= 0 {
        0
    } else {
        payload_mismatches(a, b, n - 1) + if a[n - 1].payload@ != b[n - 1].payload@ {
            1int
        } else {
            0int
        }
    }
}

/// `tally` holds the counts of the pair `a`, `b`.
pub open spec fn is_tally_of(tally: PairTally, a: Seq<Observed>, b: Seq<Observed>) -> bool {
    &&& tally.compared == compared(a, b)
    &&& tally.vector_mismatches == vector_mismatches(a, b, compared(a, b))
    &&& tally.payload_mismatches == payload_mismatches(a, b, compared(a, b))
}

/// The place `p` is the first at which the identifiers of `a` and `b`
/// differ.
pub open spec fn is_first_split(a: Seq<Observed>, b: Seq<Observed>, p: int) -> bool {
    &&& 0 <= p < compared(a, b)
    &&& a[p].id != b[p].id
    &&& ids_match(a, b, p)
}

/// The identifiers of the nodes `i` and `i + 1` match at every place that
/// both have.
pub open spec fn pair_matches(nodes: Seq<Vec<Observed>>, i: int) -> bool {
    ids_match(nodes[i]@, nodes[i + 1]@, compared(nodes[i]@, nodes[i + 1]@))
}

/// `fault` names the first pair of `nodes` whose identifiers differ, and
/// the first place at which they do.
pub open spec fn is_first_fault(nodes: Seq<Vec<Observed>>, fault: StructuralFault) -> bool {
    &&& 0 <= fault.pair < nodes.len() - 1
    &&& forall|i: int| 0 <= i < fault.pair ==> #[trigger] pair_matches(nodes, i)
    &&& is_first_split(nodes[fault.pair as int]@, nodes[fault.pair + 1]@, fault.position as int)
    &&& fault.left_id == nodes[fault.pair as int]@[fault.position as int].id
    &&& fault.right_id == nodes[fault.pair + 1]@[fault.position as int].id
}

/// `tallies` holds the counts of every adjacent pair of `nodes`, in order.
pub open spec fn are_tallies_of(tallies: Seq<PairTally>, nodes: Seq<Vec<Observed>>) -> bool {
    &&& tallies.len() == if nodes.len() == 0 {
        0
    } else {
        nodes.len() - 1
    }
    &&& forall|i: int|
        0 <= i < tallies.len() ==> is_tally_of(#[trigger] tallies[i], nodes[i]@, nodes[i + 1]@)
}

/// Two points are the same: identifier, payload and vector.
pub open spec fn same_point(a: Observed, b: Observed) -> bool {
    a.id == b.id && a.payload@ == b.payload@ && a.vector@ == b.vector@
}

/// Two nodes agree: they returned the same points at the same places.
pub open spec fn agree(a: Seq<Observed>, b: Seq<Observed>) -> bool {
    a.len() == b.len() && forall|p: int| 0 <= p < a.len() ==> same_point(#[trigger] a[p], b[p])
}

/// A pair without a mismatch: the identifiers match and no vector or
/// payload differs at a place that both nodes have.
pub open spec fn is_clean(a: Seq<Observed>, b: Seq<Observed>) -> bool {
    &&& ids_match(a, b, compared(a, b))
    &&& vector_mismatches(a, b, compared(a, b)) == 0
    &&& payload_mismatches(a, b, compared(a, b)) == 0
}

/// Neither count is negative, and where both are zero no vector and no
/// payload differs among the first `n` places; where no vector and no
/// payload differs there, both are zero.
pub proof fn zero_counts_mean_no_difference(a: Seq<Observed>, b: Seq<Observed>, n: int)
    requires
        0 <= n <= compared(a, b),
    ensures
        0 <= vector_mismatches(a, b, n) <= n,
        0 <= payload_mismatches(a, b, n) <= n,
        vector_mismatches(a, b, n) == 0 <==> forall|p: int|
            0 <= p < n ==> (#[trigger] a[p]).vector@ == b[p].vector@,
        payload_mismatches(a, b, n) == 0 <==> forall|p: int|
            0 <= p < n ==> (#[trigger] a[p]).payload@ == b[p].payload@,
    decreases n,
{
    if n > 0 {
        zero_counts_mean_no_difference(a, b, n - 1);
        if vector_mismatches(a, b, n) == 0 {
            assert forall|p: int| 0 <= p < n implies (#[trigger] a[p]).vector@ == b[p].vector@ by {}
        } else if vector_mismatches(a, b, n - 1) == 0 {
            assert(a[n - 1].vector@ != b[n - 1].vector@);
        }
        if payload_mismatches(a, b, n) == 0 {
            assert forall|p: int| 0 <= p < n implies (#[trigger] a[p]).payload@
                == b[p].payload@ by {}
        } else if payload_mismatches(a, b, n - 1) == 0 {
            assert(a[n - 1].payload@ != b[n - 1].payload@);
        }
    }
}

/// Two nodes that returned the same number of points agree exactly where
/// their pair is without a mismatch.
pub proof fn clean_pair_agrees(a: Seq<Observed>, b: Seq<Observed>)
    requires
        a.len() == b.len(),
    ensures
        is_clean(a, b) <==> agree(a, b),
{
    zero_counts_mean_no_difference(a, b, compared(a, b));
    if is_clean(a, b) {
        assert forall|p: int| 0 <= p < a.len() implies same_point(#[trigger] a[p], b[p]) by {}
    }
    if agree(a, b) {
        assert forall|p: int| 0 <= p < a.len() implies (#[trigger] a[p]).id == b[p].id by {
            assert(same_point(a[p], b[p]));
        }
        assert forall|p: int| 0 <= p < a.len() implies (#[trigger] a[p]).vector@
            == b[p].vector@ by {
            assert(same_point(a[p], b[p]));
        }
        assert forall|p: int| 0 <= p < a.len() implies (#[trigger] a[p]).payload@
            == b[p].payload@ by {
            assert(same_point(a[p], b[p]));
        }
    }
}

/// Agreement goes both ways.
pub proof fn agreement_is_symmetric(a: Seq<Observed>, b: Seq<Observed>)
    requires
        agree(a, b),
    ensures
        agree(b, a),
{
    assert forall|p: int| 0 <= p < b.len() implies same_point(#[trigger] b[p], a[p]) by {
        assert(same_point(a[p], b[p]));
    }
}

/// Where every node agrees with its neighbour, any two nodes agree: the
/// adjacent pairs stand for the whole cluster.
pub proof fn adjacent_agreement_is_global(nodes: Seq<Seq<Observed>>, i: int, j: int)
    requires
        forall|k: int| 0 <= k < nodes.len() - 1 ==> agree(#[trigger] nodes[k], nodes[k + 1]),
        0 <= i <= j < nodes.len(),
    ensures
        agree(nodes[i], nodes[j]),
        agree(nodes[j], nodes[i]),
    decreases j - i,
{
    if i == j {
        assert forall|p: int| 0 <= p < nodes[i].len() implies same_point(
            #[trigger] nodes[i][p],
            nodes[i][p],
        ) by {}
    } else {
        adjacent_agreement_is_global(nodes, i, j - 1);
        assert(agree(nodes[j - 1], nodes[j]));
        assert forall|p: int| 0 <= p < nodes[i].len() implies same_point(
            #[trigger] nodes[i][p],
            nodes[j][p],
        ) by {
            assert(same_point(nodes[i][p], nodes[j - 1][p]));
            assert(same_point(nodes[j - 1][p], nodes[j][p]));
        }
        agreement_is_symmetric(nodes[i], nodes[j]);
    }
}

/// No point of `points` has a greater identifier than a later one.
pub open spec fn ids_ascending(points: Seq<Observed>) -> bool {
    forall|i: int, j: int| 0 <= i < j < points.len() ==> points[i].id <= points[j].id
}

/// `ordered` holds the points of `points`, each as often, by ascending
/// identifier.
pub open spec fn is_ordering_of(ordered: Seq<Observed>, points: Seq<Observed>) -> bool {
    ordered.to_multiset() == points.to_multiset() && ids_ascending(ordered)
}

/// `<[T]>::sort_unstable_by_key` of std, with the identifier of a point as
/// its key: afterwards the vector holds the points that it held before,
/// each as often as before, by ascending identifier. The order of points
/// with one identifier is left open.
#[verifier::external_body]
fn sort_points(points: &mut Vec<Observed>)
    ensures
        is_ordering_of(final(points)@, old(points)@),
{
    points.sort_unstable_by_key(|point| point.id);
}

/// Orders the points of every node by identifier, so that the nodes can
/// be compared place by place.
pub fn order_nodes(nodes: Vec<Vec<Observed>>) -> (ordered: Vec<Vec<Observed>>)
    ensures
        ordered@.len() == nodes@.len(),
        forall|i: int|
            0 <= i < nodes@.len() ==> is_ordering_of((#[trigger] ordered@[i])@, nodes@[i]@),
{
    let ghost count = nodes@.len() as int;
    let mut rest = nodes;
    let mut turned: Vec<Vec<Observed>> = Vec::new();
    while rest.len() > 0
        invariant
            count == nodes@.len(),
            rest@.len() + turned@.len() == count,
            rest@ == nodes@.subrange(0, rest@.len() as int),
            forall|k: int|
                0 <= k < turned@.len() ==> is_ordering_of(
                    (#[trigger] turned@[k])@,
                    nodes@[count - 1 - k]@,
                ),
        decreases rest@.len(),
    {
        let ghost at = rest@.len() - 1;
        let mut points = rest.pop().unwrap();
        assert(points == nodes@[at]);
        sort_points(&mut points);
        turned.push(points);
    }
    let mut ordered: Vec<Vec<Observed>> = Vec::new();
    let ghost all = turned@;
    while turned.len() > 0
        invariant
            count == nodes@.len(),
            all.len() == count,
            turned@.len() + ordered@.len() == count,
            turned@ == all.subrange(0, turned@.len() as int),
            forall|k: int|
                0 <= k < count ==> is_ordering_of((#[trigger] all[k])@, nodes@[count - 1 - k]@),
            forall|k: int|
                0 <= k < ordered@.len() ==> is_ordering_of((#[trigger] ordered@[k])@, nodes@[k]@),
        decreases turned@.len(),
    {
        let ghost at = turned@.len() - 1;
        let points = turned.pop().unwrap();
        assert(points == all[at]);
        assert(is_ordering_of(all[at]@, nodes@[count - 1 - at]@));
        ordered.push(points);
    }
    ordered
}

/// Whether two byte strings are equal.
pub fn same_bytes(a: &Vec<u8>, b: &Vec<u8>) -> (same: bool)
    ensures
        same == (a@ == b@),
{
    if a.len() != b.len() {
        return false;
    }
    let mut i: usize = 0;
    while i < a.len()
        invariant
            a@.len() == b@.len(),
            i <= a@.len(),
            forall|k: int| 0 <= k < i ==> a@[k] == b@[k],
        decreases a@.len() - i,
    {
        if a[i] != b[i] {
            return false;
        }
        i += 1;
    }
    assert(a@ =~= b@);
    true
}

/// Compares two neighbouring nodes place by place, as far as both go.
/// Different identifiers at one place end the comparison: the place and
/// both identifiers are returned.
pub fn compare_pair(a: &Vec<Observed>, b: &Vec<Observed>) -> (result: Result<
    PairTally,
    (usize, u64, u64),
>)
    ensures
        result is Ok <==> ids_match(a@, b@, compared(a@, b@)),
        result is Ok ==> is_tally_of(result.unwrap(), a@, b@),
        result is Err ==> is_first_split(a@, b@, result.unwrap_err().0 as int)
            && result.unwrap_err().1 == a@[result.unwrap_err().0 as int].id
            && result.unwrap_err().2 == b@[result.unwrap_err().0 as int].id,
{
    let places: usize = if a.len() <= b.len() {
        a.len()
    } else {
        b.len()
    };
    let mut vectors: usize = 0;
    let mut payloads: usize = 0;
    let mut p: usize = 0;
    while p < places
        invariant
            places == compared(a@, b@),
            p <= places,
            ids_match(a@, b@, p as int),
            vectors == vector_mismatches(a@, b@, p as int),
            payloads == payload_mismatches(a@, b@, p as int),
            vectors <= p,
            payloads <= p,
        decreases places - p,
    {
        if a[p].id != b[p].id {
            assert(is_first_split(a@, b@, p as int));
            return Err((p, a[p].id, b[p].id));
        }
        if !same_bytes(&a[p].vector, &b[p].vector) {
            vectors += 1;
        }
        if !same_bytes(&a[p].payload, &b[p].payload) {
            payloads += 1;
        }
        p += 1;
    }
    Ok(PairTally { compared: places, vector_mismatches: vectors, payload_mismatches: payloads })
}

impl PairTally {
    /// Whether any vector or payload differs.
    pub open spec fn has_mismatch(self) -> bool {
        self.vector_mismatches > 0 || self.payload_mismatches > 0
    }

    /// The counts as text: how many vectors and how many payloads differ,
    /// each out of the places compared.
    pub open spec fn text(self) -> Seq<char> {
        "inconsistent vectors: "@ + decimal(self.vector_mismatches as nat) + " / "@ + decimal(
            self.compared as nat,
        ) + ", inconsistent payloads: "@ + decimal(self.payload_mismatches as nat) + " / "@
            + decimal(self.compared as nat)
    }

    /// The counts as a string.
    pub fn description(&self) -> (text: String)
        ensures
            text@ == self.text(),
    {
        let mut text = String::new();
        text.append("inconsistent vectors: ");
        append_decimal(&mut text, self.vector_mismatches as u128);
        text.append(" / ");
        append_decimal(&mut text, self.compared as u128);
        text.append(", inconsistent payloads: ");
        append_decimal(&mut text, self.payload_mismatches as u128);
        text.append(" / ");
        append_decimal(&mut text, self.compared as u128);
        assert(text@ =~= self.text());
        text
    }
}

/// `description` is the text of `tally` where it has a mismatch, and
/// nothing where it has none.
pub open spec fn describes_pair(description: Option<String>, tally: PairTally) -> bool {
    if tally.has_mismatch() {
        description is Some && description.unwrap()@ == tally.text()
    } else {
        description is None
    }
}

/// The descriptions of the pairs that have a mismatch, pair by pair.
pub fn pair_descriptions(tallies: &Vec<PairTally>) -> (descriptions: Vec<Option<String>>)
    ensures
        descriptions@.len() == tallies@.len(),
        forall|i: int|
            0 <= i < tallies@.len() ==> #[trigger] describes_pair(descriptions@[i], tallies@[i]),
{
    let mut descriptions: Vec<Option<String>> = Vec::new();
    let mut i: usize = 0;
    while i < tallies.len()
        invariant
            i <= tallies@.len(),
            descriptions@.len() == i,
            forall|k: int|
                0 <= k < i ==> #[trigger] describes_pair(descriptions@[k], tallies@[k]),
        decreases tallies@.len() - i,
    {
        let tally = tallies[i];
        let description = if tally.vector_mismatches > 0 || tally.payload_mismatches > 0 {
            Some(tally.description())
        } else {
            None
        };
        assert(describes_pair(description, tallies@[i as int]));
        descriptions.push(description);
        i += 1;
    }
    descriptions
}

/// Compares every node with its neighbour: node 0 with node 1, node 1
/// with node 2, and so on. The counts of each pair are returned in order.
/// The first pair that returned different identifiers at one place ends
/// the comparison with a structural fault.
pub fn compare_adjacent(nodes: &Vec<Vec<Observed>>) -> (result: Result<
    Vec<PairTally>,
    StructuralFault,
>)
    ensures
        result is Ok <==> forall|i: int| 0 <= i < nodes@.len() - 1 ==> #[trigger] pair_matches(nodes@, i),
        result is Ok ==> are_tallies_of(result.unwrap()@, nodes@),
        result is Err ==> is_first_fault(nodes@, result.unwrap_err()),
{
    let mut tallies: Vec<PairTally> = Vec::new();
    if nodes.len() < 2 {
        return Ok(tallies);
    }
    let pairs: usize = nodes.len() - 1;
    let mut i: usize = 0;
    while i < pairs
        invariant
            pairs == nodes@.len() - 1,
            i <= pairs,
            tallies@.len() == i,
            forall|k: int| 0 <= k < i ==> #[trigger] pair_matches(nodes@, k),
            forall|k: int|
                0 <= k < i ==> is_tally_of(#[trigger] tallies@[k], nodes@[k]@, nodes@[k + 1]@),
        decreases nodes@.len() - i,
    {
        match compare_pair(&nodes[i], &nodes[i + 1]) {
            Ok(tally) => {
                assert(pair_matches(nodes@, i as int));
                tallies.push(tally);
            },
            Err((position, left_id, right_id)) => {
                let fault = StructuralFault { pair: i, position, left_id, right_id };
                assert(!pair_matches(nodes@, i as int));
                assert(is_first_fault(nodes@, fault));
                return Err(fault);
            },
        }
        i += 1;
    }
    Ok(tallies)
}

/// The nodes `k` and `k + 1` returned equally many points.
pub open spec fn same_length(nodes: Seq<Vec<Observed>>, k: int) -> bool {
    nodes[k]@.len() == nodes[k + 1]@.len()
}

/// Every node returned as many points as its neighbour.
pub open spec fn all_same_length(nodes: Seq<Vec<Observed>>) -> bool {
    forall|k: int| 0 <= k < nodes.len() - 1 ==> #[trigger] same_length(nodes, k)
}

/// The pair `k` is the first whose nodes returned different numbers of
/// points.
pub open spec fn is_first_short(nodes: Seq<Vec<Observed>>, k: int) -> bool {
    &&& 0 <= k < nodes.len() - 1
    &&& !same_length(nodes, k)
    &&& forall|j: int| 0 <= j < k ==> #[trigger] same_length(nodes, j)
}

/// The first pair of neighbours that returned different numbers of
/// points, if there is one. A node that returned fewer points than its
/// neighbour has lost some, or the neighbour holds some that it should
/// not: either way the nodes cannot be compared place by place.
pub fn first_short_pair(nodes: &Vec<Vec<Observed>>) -> (pair: Option<usize>)
    ensures
        pair is None <==> all_same_length(nodes@),
        pair is Some ==> is_first_short(nodes@, pair.unwrap() as int),
{
    if nodes.len() < 2 {
        return None;
    }
    let pairs: usize = nodes.len() - 1;
    let mut k: usize = 0;
    while k < pairs
        invariant
            pairs == nodes@.len() - 1,
            k <= pairs,
            forall|j: int| 0 <= j < k ==> #[trigger] same_length(nodes@, j),
        decreases pairs - k,
    {
        if nodes[k].len() != nodes[k + 1].len() {
            assert(!same_length(nodes@, k as int));
            return Some(k);
        }
        k += 1;
    }
    None
}

/// Where every node returned as many points as its neighbour, all nodes
/// returned equally many.
pub proof fn neighbours_fix_every_length(nodes: Seq<Vec<Observed>>, k: int)
    requires
        all_same_length(nodes),
        0 <= k < nodes.len(),
    ensures
        nodes[k]@.len() == nodes[0]@.len(),
    decreases k,
{
    if k > 0 {
        neighbours_fix_every_length(nodes, k - 1);
        assert(same_length(nodes, k - 1));
    }
}

/// A comparison that found equally many points on all nodes, the same
/// identifiers at every place and no mismatch in any pair says that any
/// two nodes returned the same points: the cluster is consistent.
pub proof fn clean_comparison_means_every_node_agrees(
    nodes: Seq<Vec<Observed>>,
    tallies: Seq<PairTally>,
    i: int,
    j: int,
)
    requires
        all_same_length(nodes),
        forall|k: int| 0 <= k < nodes.len() - 1 ==> #[trigger] pair_matches(nodes, k),
        are_tallies_of(tallies, nodes),
        forall|k: int| 0 <= k < tallies.len() ==> !(#[trigger] tallies[k]).has_mismatch(),
        0 <= i < nodes.len(),
        0 <= j < nodes.len(),
    ensures
        agree(nodes[i]@, nodes[j]@),
{
    let views = Seq::new(nodes.len(), |k: int| nodes[k]@);
    assert forall|k: int| 0 <= k < views.len() implies (#[trigger] views[k]).len()
        == views[0].len() by {
        neighbours_fix_every_length(nodes, k);
    }
    assert forall|k: int| 0 <= k < views.len() - 1 implies is_clean(
        #[trigger] views[k],
        views[k + 1],
    ) by {
        assert(pair_matches(nodes, k));
        assert(is_tally_of(tallies[k], nodes[k]@, nodes[k + 1]@));
        assert(!tallies[k].has_mismatch());
    }
    clean_neighbours_make_a_consistent_cluster(views, i, j);
}

/// A cluster whose nodes all returned the same number of points, and
/// whose adjacent pairs are all without a mismatch, is consistent: any
/// two of its nodes agree.
pub proof fn clean_neighbours_make_a_consistent_cluster(nodes: Seq<Seq<Observed>>, i: int, j: int)
    requires
        forall|k: int| 0 <= k < nodes.len() ==> (#[trigger] nodes[k]).len() == nodes[0].len(),
        forall|k: int| 0 <= k < nodes.len() - 1 ==> is_clean(#[trigger] nodes[k], nodes[k + 1]),
        0 <= i < nodes.len(),
        0 <= j < nodes.len(),
    ensures
        agree(nodes[i], nodes[j]),
{
    assert forall|k: int| 0 <= k < nodes.len() - 1 implies agree(#[trigger] nodes[k], nodes[k + 1]) by {
        assert(nodes[k].len() == nodes[0].len());
        assert(nodes[k + 1].len() == nodes[0].len());
        clean_pair_agrees(nodes[k], nodes[k + 1]);
    }
    if i <= j {
        adjacent_agreement_is_global(nodes, i, j);
    } else {
        adjacent_agreement_is_global(nodes, j, i);
    }
}

} // verus!
