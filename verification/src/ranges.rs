//! Compression of identifier lists into contiguous ranges, and their text.

use vstd::prelude::*;
use crate::text::{append_decimal, decimal};

verus! {

/// A run of consecutive identifiers, from `start` to `last`, both included.
/// Its text shows the half-open form, `start..last + 1`.
#[derive(Clone, Copy, Debug, PartialEq, Eq, Structural)]
pub struct IdRange {
    pub start: u64,
    pub last: u64,
}

impl IdRange {
    /// A range holds at least one identifier.
    pub open spec fn wf(self) -> bool {
        self.start <= self.last
    }

    /// The identifiers of the range, ascending.
    pub open spec fn span(self) -> Seq<u64> {
        Seq::new((self.last - self.start + 1) as nat, |i: int| (self.start + i) as u64)
    }

    /// The text of the range: both bounds in decimal, the upper one excluded.
    pub open spec fn text(self) -> Seq<char> {
        decimal(self.start as nat) + seq!['.', '.'] + decimal(self.last as nat + 1)
    }
}

/// The ranges that `ids` falls into when read from left to right: an
/// identifier that is one more than its predecessor goes on with the
/// predecessor's range, any other starts a new one.
pub open spec fn runs(ids: Seq<u64>) -> Seq<IdRange>
    decreases ids.len(),
{
    if ids.len() == 0 {
        Seq::empty()
    } else {
        let before = runs(ids.drop_last());
        let id = ids.last();
        if before.len() > 0 && before.last().last + 1 == id {
            before.drop_last().push(IdRange { start: before.last().start, last: id })
        } else {
            before.push(IdRange { start: id, last: id })
        }
    }
}

/// The identifiers of all `ranges`, one range after the other.
pub open spec fn expand(ranges: Seq<IdRange>) -> Seq<u64>
    decreases ranges.len(),
{
    if ranges.len() == 0 {
        Seq::empty()
    } else {
        expand(ranges.drop_last()) + ranges.last().span()
    }
}

/// The text of `ranges`, with a comma between each two of them.
pub open spec fn ranges_text(ranges: Seq<IdRange>) -> Seq<char>
    decreases ranges.len(),
{
    if ranges.len() == 0 {
        Seq::empty()
    } else if ranges.len() == 1 {
        ranges[0].text()
    } else {
        ranges_text(ranges.drop_last()) + seq![','] + ranges.last().text()
    }
}

/// Every range of `runs` holds at least one identifier, and the last one
/// ends with the last identifier.
pub proof fn runs_are_well_formed(ids: Seq<u64>)
    ensures
        forall|k: int| 0 <= k < runs(ids).len() ==> (#[trigger] runs(ids)[k]).wf(),
        ids.len() > 0 ==> runs(ids).len() > 0 && runs(ids).last().last == ids.last(),
        ids.len() == 0 ==> runs(ids).len() == 0,
    decreases ids.len(),
{
    if ids.len() > 0 {
        runs_are_well_formed(ids.drop_last());
    }
}

/// Expanding the ranges of a list gives the list back, whatever the list.
pub proof fn runs_expand_to_input(ids: Seq<u64>)
    ensures
        expand(runs(ids)) == ids,
    decreases ids.len(),
{
    if ids.len() == 0 {
        assert(expand(runs(ids)) =~= ids);
    } else {
        let init = ids.drop_last();
        let before = runs(init);
        let id = ids.last();
        runs_expand_to_input(init);
        runs_are_well_formed(init);
        if before.len() > 0 && before.last().last + 1 == id {
            let grown = IdRange { start: before.last().start, last: id };
            let after = before.drop_last().push(grown);
            assert(after.drop_last() =~= before.drop_last());
            assert(after.last() == grown);
            assert(before.last().wf());
            assert(grown.span() =~= before.last().span().push(id));
            assert(expand(after) =~= expand(before).push(id));
            assert(init.push(id) =~= ids);
        } else {
            let single = IdRange { start: id, last: id };
            let after = before.push(single);
            assert(after.drop_last() =~= before);
            assert(single.span() =~= seq![id]);
            assert(expand(after) =~= expand(before).push(id));
            assert(init.push(id) =~= ids);
        }
    }
}

/// No two neighbouring ranges of `runs` could be one range: the second
/// never starts where the first ends.
pub proof fn runs_are_maximal(ids: Seq<u64>)
    ensures
        forall|k: int|
            0 <= k < runs(ids).len() - 1 ==> (#[trigger] runs(ids)[k]).last + 1 != runs(ids)[k
                + 1].start,
    decreases ids.len(),
{
    if ids.len() > 0 {
        runs_are_maximal(ids.drop_last());
        runs_are_well_formed(ids.drop_last());
    }
}

/// In a strictly ascending list the ranges are apart: between two
/// neighbouring ranges at least one identifier is absent.
pub proof fn runs_of_ascending_are_apart(ids: Seq<u64>)
    requires
        forall|i: int, j: int| 0 <= i < j < ids.len() ==> ids[i] < ids[j],
    ensures
        forall|k: int|
            0 <= k < runs(ids).len() - 1 ==> (#[trigger] runs(ids)[k]).last + 1 < runs(ids)[k
                + 1].start,
    decreases ids.len(),
{
    if ids.len() > 0 {
        let init = ids.drop_last();
        runs_of_ascending_are_apart(init);
        runs_are_well_formed(init);
        if init.len() > 0 {
            assert(init.last() == ids[ids.len() - 2]);
            assert(ids[ids.len() - 2] < ids[ids.len() - 1]);
        }
    }
}

/// `count` identifiers from `first` on, one after the other.
pub open spec fn counted_from(first: u64, count: nat) -> Seq<u64> {
    Seq::new(count, |i: int| (first + i) as u64)
}

/// Identifiers that follow each other without a gap are one range, and
/// its text names the first of them and the one after the last.
pub proof fn unbroken_list_is_one_range(first: u64, count: nat)
    requires
        count >= 1,
        first + count - 1 <= u64::MAX,
    ensures
        runs(counted_from(first, count)) == seq![
            IdRange { start: first, last: (first + count - 1) as u64 },
        ],
        ranges_text(runs(counted_from(first, count))) == decimal(first as nat) + seq!['.', '.']
            + decimal(first as nat + count),
    decreases count,
{
    let ids = counted_from(first, count);
    let whole = IdRange { start: first, last: (first + count - 1) as u64 };
    if count == 1 {
        assert(ids.drop_last() =~= Seq::<u64>::empty());
        assert(runs(ids.drop_last()) =~= Seq::<IdRange>::empty());
        assert(runs(ids) =~= seq![whole]);
    } else {
        unbroken_list_is_one_range(first, (count - 1) as nat);
        assert(ids.drop_last() =~= counted_from(first, (count - 1) as nat));
        let before = runs(ids.drop_last());
        assert(before.last().last + 1 == ids.last());
        assert(runs(ids) =~= seq![whole]);
    }
    assert(ranges_text(seq![whole]) == whole.text());
}

/// Appends the text of one range to `out`.
pub fn append_range(out: &mut String, range: IdRange)
    ensures
        final(out)@ == old(out)@ + range.text(),
{
    let ghost before = out@;
    proof {
        reveal_strlit("..");
    }
    append_decimal(out, range.start as u128);
    out.append("..");
    append_decimal(out, range.last as u128 + 1);
    assert(".."@ =~= seq!['.', '.']);
    assert(out@ =~= before + range.text());
}

/// The ranges of `ids`, in the order of the list.
pub fn compress(ids: &[u64]) -> (ranges: Vec<IdRange>)
    ensures
        ranges@ == runs(ids@),
{
    let mut ranges: Vec<IdRange> = Vec::new();
    let mut i: usize = 0;
    assert(ids@.subrange(0, 0) =~= Seq::<u64>::empty());
    while i < ids.len()
        invariant
            i <= ids.len(),
            ranges@ == runs(ids@.subrange(0, i as int)),
        decreases ids.len() - i,
    {
        let id: u64 = ids[i];
        proof {
            let upto = ids@.subrange(0, i + 1);
            assert(upto.drop_last() =~= ids@.subrange(0, i as int));
            assert(upto.last() == id);
        }
        let count: usize = ranges.len();
        if count > 0 && ranges[count - 1].last < u64::MAX && ranges[count - 1].last + 1 == id {
            let start: u64 = ranges[count - 1].start;
            let ghost before = ranges@;
            ranges.pop();
            ranges.push(IdRange { start, last: id });
            assert(ranges@ =~= before.drop_last().push(IdRange { start: before.last().start, last: id }));
        } else {
            ranges.push(IdRange { start: id, last: id });
        }
        i += 1;
    }
    assert(ids@.subrange(0, i as int) =~= ids@);
    ranges
}

/// The text of `ranges`, with a comma between each two of them.
pub fn render_ranges(ranges: &Vec<IdRange>) -> (text: String)
    ensures
        text@ == ranges_text(ranges@),
{
    let mut text = String::new();
    let mut i: usize = 0;
    assert(ranges@.subrange(0, 0) =~= Seq::<IdRange>::empty());
    while i < ranges.len()
        invariant
            i <= ranges.len(),
            text@ == ranges_text(ranges@.subrange(0, i as int)),
        decreases ranges.len() - i,
    {
        let ghost before = ranges@.subrange(0, i as int);
        let ghost after = ranges@.subrange(0, i + 1);
        proof {
            reveal_strlit(",");
            assert(after.drop_last() =~= before);
            assert(after.last() == ranges@[i as int]);
        }
        if i > 0 {
            text.append(",");
        }
        append_range(&mut text, ranges[i]);
        proof {
            if i == 0 {
                assert(text@ =~= ranges@[0].text());
            } else {
                assert(text@ =~= ranges_text(before) + seq![','] + ranges@[i as int].text());
            }
        }
        i += 1;
    }
    assert(ranges@.subrange(0, i as int) =~= ranges@);
    text
}

/// The text of the ranges of `ids`: `"3..6,9..11,15..16"` for
/// `[3, 4, 5, 9, 10, 15]`, and nothing for an empty list.
pub fn format_ranges(ids: &[u64]) -> (text: String)
    ensures
        text@ == ranges_text(runs(ids@)),
{
    let ranges = compress(ids);
    render_ranges(&ranges)
}

} // verus!
