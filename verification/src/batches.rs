//! Batches: a list of identifiers cut into pieces of bounded size, one
//! piece for each remote operation.

use vstd::prelude::*;

verus! {

/// The lesser of two numbers.
pub open spec fn lesser(a: int, b: int) -> int {
    if a <= b {
        a
    } else {
        b
    }
}

/// Piece number `k` of `ids` where a piece holds up to `limit` identifiers:
/// those at the places `k * limit` to `k * limit + limit`, as far as the
/// list goes.
pub open spec fn piece(ids: Seq<u64>, limit: nat, k: int) -> Seq<u64> {
    ids.subrange(k * limit, lesser(k * limit + limit, ids.len() as int))
}

/// `batches` are the pieces of `ids`, in order: each starts inside the
/// list, so none is empty, and together they reach its end.
pub open spec fn is_batching(batches: Seq<Vec<u64>>, ids: Seq<u64>, limit: nat) -> bool {
    &&& are_pieces(batches, ids, limit)
    &&& batches.len() as int * limit >= ids.len()
}

/// Each of `batches` is the piece of `ids` with its number, and starts
/// inside the list.
pub open spec fn are_pieces(batches: Seq<Vec<u64>>, ids: Seq<u64>, limit: nat) -> bool {
    forall|k: int| 0 <= k < batches.len() ==> #[trigger] is_piece(batches[k]@, ids, limit, k)
}

/// `batch` is piece number `k` of `ids`, and starts inside the list.
pub open spec fn is_piece(batch: Seq<u64>, ids: Seq<u64>, limit: nat, k: int) -> bool {
    k * limit < ids.len() && batch == piece(ids, limit, k)
}

/// The identifiers of all `batches`, one batch after the other.
pub open spec fn flattened(batches: Seq<Vec<u64>>) -> Seq<u64>
    decreases batches.len(),
{
    if batches.len() == 0 {
        Seq::empty()
    } else {
        flattened(batches.drop_last()) + batches.last()@
    }
}

/// The pieces of a list hold the list: nothing is lost, repeated or moved.
pub proof fn batching_keeps_the_list(batches: Seq<Vec<u64>>, ids: Seq<u64>, limit: nat)
    requires
        limit > 0,
        is_batching(batches, ids, limit),
    ensures
        flattened(batches) == ids,
        forall|k: int| 0 <= k < batches.len() ==> 0 < (#[trigger] batches[k])@.len() <= limit,
{
    assert forall|k: int| 0 <= k < batches.len() implies 0 < (#[trigger] batches[k])@.len()
        <= limit by {
        assert(is_piece(batches[k]@, ids, limit, k));
        assert(k * limit >= 0) by (nonlinear_arith)
            requires
                k >= 0,
                limit > 0,
        ;
    }
    prefix_is_flattened(batches, ids, limit, batches.len() as int);
    assert(batches.subrange(0, batches.len() as int) =~= batches);
    assert(ids.subrange(0, ids.len() as int) =~= ids);
}

proof fn prefix_is_flattened(batches: Seq<Vec<u64>>, ids: Seq<u64>, limit: nat, n: int)
    requires
        limit > 0,
        is_batching(batches, ids, limit),
        0 <= n <= batches.len(),
    ensures
        flattened(batches.subrange(0, n)) == ids.subrange(
            0,
            lesser(n * limit, ids.len() as int),
        ),
    decreases n,
{
    if n == 0 {
        assert(batches.subrange(0, 0) =~= Seq::<Vec<u64>>::empty());
        assert(ids.subrange(0, 0) =~= Seq::<u64>::empty());
    } else {
        prefix_is_flattened(batches, ids, limit, n - 1);
        let upto = batches.subrange(0, n);
        assert(upto.drop_last() =~= batches.subrange(0, n - 1));
        assert(upto.last() == batches[n - 1]);
        assert(is_piece(batches[n - 1]@, ids, limit, n - 1));
        assert((n - 1) * limit + limit == n * limit) by (nonlinear_arith);
        assert((n - 1) * limit >= 0) by (nonlinear_arith)
            requires
                n >= 1,
                limit > 0,
        ;
        assert(flattened(upto) =~= ids.subrange(0, lesser(n * limit, ids.len() as int)));
    }
}

/// A copy of `ids`.
pub fn copy_ids(ids: &Vec<u64>) -> (copy: Vec<u64>)
    ensures
        copy@ == ids@,
{
    let mut copy: Vec<u64> = Vec::new();
    let mut i: usize = 0;
    while i < ids.len()
        invariant
            i <= ids@.len(),
            copy@ == ids@.subrange(0, i as int),
        decreases ids@.len() - i,
    {
        copy.push(ids[i]);
        assert(copy@ =~= ids@.subrange(0, i + 1));
        i += 1;
    }
    assert(ids@.subrange(0, i as int) =~= ids@);
    copy
}

/// Cuts `ids` into batches of `limit` identifiers each; the last one holds
/// what is left. An empty list gives no batch.
pub fn split_batches(ids: &Vec<u64>, limit: usize) -> (batches: Vec<Vec<u64>>)
    requires
        limit > 0,
    ensures
        is_batching(batches@, ids@, limit as nat),
{
    let mut batches: Vec<Vec<u64>> = Vec::new();
    let mut from: usize = 0;
    let ghost cap: nat = limit as nat;
    assert(0 * cap == 0) by (nonlinear_arith);
    while from < ids.len()
        invariant
            cap == limit,
            limit > 0,
            from <= ids@.len(),
            from == lesser(batches@.len() as int * cap, ids@.len() as int),
            are_pieces(batches@, ids@, cap),
        decreases ids@.len() - from,
    {
        let until: usize = if ids.len() - from > limit {
            from + limit
        } else {
            ids.len()
        };
        let mut batch: Vec<u64> = Vec::new();
        let mut at: usize = from;
        while at < until
            invariant
                from <= at <= until <= ids@.len(),
                batch@ == ids@.subrange(from as int, at as int),
            decreases until - at,
        {
            batch.push(ids[at]);
            assert(batch@ =~= ids@.subrange(from as int, at + 1));
            at += 1;
        }
        let ghost n = batches@.len() as int;
        let ghost before = batches@;
        proof {
            assert((n + 1) * cap == n * cap + cap) by (nonlinear_arith);
            assert(from == n * cap);
            assert(batch@ == piece(ids@, cap, n));
        }
        batches.push(batch);
        from = until;
        proof {
            assert forall|k: int| 0 <= k < batches@.len() implies #[trigger] is_piece(
                batches@[k]@,
                ids@,
                cap,
                k,
            ) by {
                if k < n {
                    assert(is_piece(before[k]@, ids@, cap, k));
                }
            }
        }
    }
    batches
}

} // verus!
