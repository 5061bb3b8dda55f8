//! Rounds and the identifier window that each round makes active.

use vstd::prelude::*;

verus! {

/// The identifiers `start`, `start + 1`, ... of which there are `width`.
#[derive(Clone, Copy, Debug, PartialEq, Eq, Structural)]
pub struct Window {
    pub start: u64,
    pub width: u64,
}

impl Window {
    /// The greatest identifier of the window is a `u64`. A window of no
    /// identifiers has none, and is well formed wherever it starts.
    pub open spec fn wf(self) -> bool {
        self.width == 0 || self.start + self.width - 1 <= u64::MAX
    }

    /// Whether `id` lies in the window.
    pub open spec fn contains(self, id: u64) -> bool {
        self.start <= id && id - self.start < self.width
    }

    /// The identifiers of the window, ascending.
    pub open spec fn ids(self) -> Seq<u64> {
        Seq::new(self.width as nat, |i: int| (self.start + i) as u64)
    }

    /// The first identifier of the window that the previous round left
    /// behind: one width below `start`, or zero where that is out of range.
    pub open spec fn stale_start(self) -> u64 {
        if self.start >= self.width {
            (self.start - self.width) as u64
        } else {
            0
        }
    }

    /// The identifiers that a sweep removes before it fills the window:
    /// those from `stale_start` up to `start`, the latter excluded.
    pub open spec fn stale_ids(self) -> Seq<u64> {
        Seq::new((self.start - self.stale_start()) as nat, |i: int| (self.stale_start() + i) as u64)
    }

    /// The window of round `round` where each round has `width` identifiers:
    /// it starts at `round * width`. With a width of zero every round has
    /// the empty window. There is none where the window would pass the
    /// greatest `u64`.
    pub fn for_round(round: u64, width: u64) -> (window: Option<Window>)
        ensures
            window is Some <==> width == 0 || round * width + width - 1 <= u64::MAX,
            window is Some ==> window.unwrap().wf() && window.unwrap().start == round * width
                && window.unwrap().width == width,
    {
        assert(round * width <= 0xffff_ffff_ffff_ffff * 0xffff_ffff_ffff_ffff) by (nonlinear_arith)
            requires
                round <= 0xffff_ffff_ffff_ffff,
                width <= 0xffff_ffff_ffff_ffff,
        ;
        assert(width == 0 ==> round * width == 0) by (nonlinear_arith);
        let product: u128 = (round as u128) * (width as u128);
        if width == 0 {
            return Some(Window { start: 0, width });
        }
        let greatest: u128 = product + (width as u128) - 1;
        if greatest > u64::MAX as u128 {
            None
        } else {
            Some(Window { start: product as u64, width })
        }
    }

    /// Whether `id` lies in the window.
    pub fn holds(&self, id: u64) -> (inside: bool)
        ensures
            inside == self.contains(id),
    {
        self.start <= id && id - self.start < self.width
    }
}

/// `count` consecutive identifiers from `first` on.
pub fn consecutive(first: u64, count: usize) -> (ids: Vec<u64>)
    requires
        count == 0 || first + count - 1 <= u64::MAX,
    ensures
        ids@ == Seq::new(count as nat, |i: int| (first + i) as u64),
{
    let mut ids: Vec<u64> = Vec::new();
    let mut i: usize = 0;
    while i < count
        invariant
            i <= count,
            count == 0 || first + count - 1 <= u64::MAX,
            ids@ == Seq::new(i as nat, |k: int| (first + k) as u64),
        decreases count - i,
    {
        let id: u64 = first + i as u64;
        ids.push(id);
        assert(ids@ =~= Seq::new((i + 1) as nat, |k: int| (first + k) as u64));
        i += 1;
    }
    ids
}

} // verus!
