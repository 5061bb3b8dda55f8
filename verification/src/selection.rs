//! Random choice of nodes: each batch goes to a node drawn afresh, and each
//! transfer runs between two different nodes.

use vstd::prelude::*;
use rand::seq::SliceRandom;
use rand::Rng;

verus! {

/// `Rng::gen_range` of rand, on the generator of the calling thread
/// (`rand::thread_rng`) and the range from zero up to `bound`, the latter
/// excluded. Whatever is drawn lies in that range; which number it is
/// depends on chance. The call panics on an empty range, which `requires`
/// leaves out. The generator is seeded by the operating system when a
/// thread first asks for it, and fails where the system has no entropy to
/// give.
#[verifier::external_body]
fn random_below(bound: usize) -> (draw: usize)
    requires
        bound > 0,
    ensures
        draw < bound,
{
    rand::thread_rng().gen_range(0..bound)
}

/// `SliceRandom::shuffle` of rand, on the generator of the calling thread
/// (`rand::thread_rng`): it swaps elements and does nothing else, so the
/// vector holds afterwards what it held before, each identifier as often
/// as before. In which order depends on chance.
#[verifier::external_body]
fn shuffle_ids(ids: &mut Vec<u64>)
    ensures
        final(ids)@.to_multiset() == old(ids)@.to_multiset(),
{
    ids.shuffle(&mut rand::thread_rng());
}

/// The order in which identifiers are worked on: as they stand, or
/// shuffled where `shuffle` is set.
pub fn arrange(ids: Vec<u64>, shuffle: bool) -> (arranged: Vec<u64>)
    ensures
        arranged@.to_multiset() == ids@.to_multiset(),
        !shuffle ==> arranged@ == ids@,
{
    let mut arranged = ids;
    if shuffle {
        shuffle_ids(&mut arranged);
    }
    arranged
}

/// `pair` holds what stands at the places `i` and `j` of `nodes`, and
/// these are two places.
pub open spec fn picks(nodes: Seq<usize>, pair: (usize, usize), i: int, j: int) -> bool {
    &&& 0 <= i < nodes.len()
    &&& 0 <= j < nodes.len()
    &&& i != j
    &&& pair.0 == nodes[i]
    &&& pair.1 == nodes[j]
}

/// `pair` holds what stands at two different places of `nodes`.
pub open spec fn are_two_of(nodes: Seq<usize>, pair: (usize, usize)) -> bool {
    exists|i: int, j: int| #[trigger] picks(nodes, pair, i, j)
}

/// `SliceRandom::choose_multiple` of rand with an amount of two, on the
/// generator of the calling thread (`rand::thread_rng`): it chooses
/// elements at random, without repetition and in random order, so on a
/// list of two or more it gives what stands at two different places.
/// Which places depends on chance. A shorter list would give fewer than
/// two elements, which `requires` leaves out.
#[verifier::external_body]
fn choose_two(nodes: &Vec<usize>) -> (pair: (usize, usize))
    requires
        nodes@.len() >= 2,
    ensures
        are_two_of(nodes@, pair),
{
    let chosen: Vec<&usize> = nodes.choose_multiple(&mut rand::thread_rng(), 2).collect();
    (*chosen[0], *chosen[1])
}

/// The nodes of a cluster of `count`, by number.
pub fn node_numbers(count: usize) -> (nodes: Vec<usize>)
    ensures
        nodes@.len() == count,
        forall|k: int| 0 <= k < count ==> #[trigger] nodes@[k] == k,
{
    let mut nodes: Vec<usize> = Vec::new();
    let mut i: usize = 0;
    while i < count
        invariant
            i <= count,
            nodes@.len() == i,
            forall|k: int| 0 <= k < i ==> #[trigger] nodes@[k] == k,
        decreases count - i,
    {
        nodes.push(i);
        i += 1;
    }
    nodes
}

/// Draws one of `count` nodes.
pub fn pick_node(count: usize) -> (node: usize)
    requires
        count > 0,
    ensures
        node < count,
{
    random_below(count)
}

/// Draws a node for each of `jobs` jobs, each draw among `count` nodes
/// and independent of the others.
pub fn draw_nodes(jobs: usize, count: usize) -> (draws: Vec<usize>)
    requires
        count > 0,
    ensures
        draws@.len() == jobs,
        forall|k: int| 0 <= k < jobs ==> #[trigger] draws@[k] < count,
{
    let mut draws: Vec<usize> = Vec::new();
    let mut i: usize = 0;
    while i < jobs
        invariant
            count > 0,
            i <= jobs,
            draws@.len() == i,
            forall|k: int| 0 <= k < i ==> #[trigger] draws@[k] < count,
        decreases jobs - i,
    {
        let node = pick_node(count);
        draws.push(node);
        i += 1;
    }
    draws
}

/// Draws two different nodes out of `count`: the source and the
/// destination of a transfer.
pub fn pick_pair(count: usize) -> (pair: (usize, usize))
    requires
        count >= 2,
    ensures
        pair.0 != pair.1,
        pair.0 < count,
        pair.1 < count,
{
    let nodes = node_numbers(count);
    let pair = choose_two(&nodes);
    proof {
        let (i, j) = choose|i: int, j: int| #[trigger] picks(nodes@, pair, i, j);
        assert(picks(nodes@, pair, i, j));
        assert(nodes@[i] == i);
        assert(nodes@[j] == j);
    }
    pair
}

} // verus!
