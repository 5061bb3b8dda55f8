//! Point identifiers. The harness works on numbers; the other kind that a
//! node can return is refused wherever it turns up.

use vstd::prelude::*;

verus! {

/// The identifier of a point as a node returns it.
#[derive(Debug)]
pub enum PointId {
    /// A number.
    Num(u64),
    /// A UUID, in text. The harness never writes one.
    Uuid(String),
}

/// An identifier of a kind that the harness does not work on.
#[derive(Clone, Copy, Debug, PartialEq, Eq, Structural)]
pub struct UnsupportedId {
    /// Its place among the identifiers that were handed in.
    pub position: usize,
}

/// The identifier is a number.
pub open spec fn is_num(id: PointId) -> bool {
    id is Num
}

/// The number of a numeric identifier.
pub open spec fn num_of(id: PointId) -> u64 {
    id->Num_0
}

/// The place `k` holds the first identifier of `ids` that is no number.
pub open spec fn is_first_unsupported(ids: Seq<PointId>, k: int) -> bool {
    &&& 0 <= k < ids.len()
    &&& !is_num(ids[k])
    &&& forall|j: int| 0 <= j < k ==> is_num(#[trigger] ids[j])
}

/// `nums` are the numbers of `ids`, in order.
pub open spec fn are_nums_of(nums: Seq<u64>, ids: Seq<PointId>) -> bool {
    &&& nums.len() == ids.len()
    &&& forall|i: int| 0 <= i < ids.len() ==> #[trigger] nums[i] == num_of(ids[i])
}

/// The number of a numeric identifier; none for another kind.
pub fn point_num(id: &PointId) -> (num: Option<u64>)
    ensures
        num is Some <==> is_num(*id),
        num is Some ==> num.unwrap() == num_of(*id),
{
    match id {
        PointId::Num(num) => Some(*num),
        PointId::Uuid(_) => None,
    }
}

/// The numbers of the identifiers that a node returned, in order. The
/// first identifier of another kind is refused with its place.
pub fn point_nums(ids: &Vec<PointId>) -> (nums: Result<Vec<u64>, UnsupportedId>)
    ensures
        nums is Ok <==> forall|i: int| 0 <= i < ids@.len() ==> is_num(#[trigger] ids@[i]),
        nums is Ok ==> are_nums_of(nums.unwrap()@, ids@),
        nums is Err ==> is_first_unsupported(ids@, nums.unwrap_err().position as int),
{
    let mut nums: Vec<u64> = Vec::new();
    let mut i: usize = 0;
    while i < ids.len()
        invariant
            i <= ids@.len(),
            nums@.len() == i,
            forall|j: int| 0 <= j < i ==> is_num(#[trigger] ids@[j]),
            forall|j: int| 0 <= j < i ==> #[trigger] nums@[j] == num_of(ids@[j]),
        decreases ids@.len() - i,
    {
        match point_num(&ids[i]) {
            Some(num) => nums.push(num),
            None => {
                assert(is_first_unsupported(ids@, i as int));
                return Err(UnsupportedId { position: i });
            },
        }
        i += 1;
    }
    Ok(nums)
}

} // verus!
