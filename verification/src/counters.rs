//! The counter workload: each round reads the counter of every identifier
//! and writes it back one higher; the checker then expects the number of
//! completed rounds.

use std::collections::HashMap;
use vstd::prelude::*;
use vstd::std_specs::hash::group_hash_axioms;
use crate::text::{append_decimal, append_signed, decimal, signed_decimal};

verus! {

/// The counter that a node returned for one identifier.
#[derive(Clone, Copy, Debug, PartialEq, Eq, Structural)]
pub struct CounterReading {
    pub id: u64,
    pub value: i64,
}

/// Why a batch cannot be touched.
#[derive(Clone, Copy, Debug, PartialEq, Eq, Structural)]
pub enum TouchFault {
    /// The node returned no counter for the identifier.
    Unread { id: u64 },
    /// The counter of the identifier cannot go higher.
    Saturated { id: u64 },
}

/// What is wrong with the counters of one node.
#[derive(Clone, Copy, Debug, PartialEq, Eq, Structural)]
pub enum ScalarFault {
    /// The node returned a counter that differs from the expected one.
    Mismatch { id: u64, found: i64, expected: i64 },
    /// The node returned no counter for an identifier that it was asked
    /// for.
    Unread { id: u64, expected: i64 },
}

/// The counter that `readings` gives for `id`: that of the last reading of
/// the identifier, if there is one.
pub open spec fn latest(readings: Seq<CounterReading>, id: u64) -> Option<i64>
    decreases readings.len(),
{
    if readings.len() == 0 {
        None
    } else if readings.last().id == id {
        Some(readings.last().value)
    } else {
        latest(readings.drop_last(), id)
    }
}

/// The counter of `id` was read and can be raised by one.
pub open spec fn can_touch(readings: Seq<CounterReading>, id: u64) -> bool {
    latest(readings, id) is Some && latest(readings, id).unwrap() < i64::MAX
}

/// The fault that the identifier `id` gives where it cannot be touched.
pub open spec fn fault_of(readings: Seq<CounterReading>, id: u64) -> TouchFault {
    if latest(readings, id) is None {
        TouchFault::Unread { id }
    } else {
        TouchFault::Saturated { id }
    }
}

/// The identifier at place `k` of `batch` is the first that cannot be
/// touched.
pub open spec fn is_first_fault(batch: Seq<u64>, readings: Seq<CounterReading>, k: int) -> bool {
    &&& 0 <= k < batch.len()
    &&& !can_touch(readings, batch[k])
    &&& forall|j: int| 0 <= j < k ==> can_touch(readings, #[trigger] batch[j])
}

/// `raised` is `batch` with the counter of each identifier one higher than
/// `readings` gives it.
pub open spec fn is_raised(
    raised: Seq<CounterReading>,
    batch: Seq<u64>,
    readings: Seq<CounterReading>,
) -> bool {
    &&& raised.len() == batch.len()
    &&& forall|i: int|
        0 <= i < batch.len() ==> #[trigger] raised[i] == (CounterReading {
            id: batch[i],
            value: (latest(readings, batch[i]).unwrap() + 1) as i64,
        })
}

/// The reading at place `k` is the first whose counter is not `expected`.
pub open spec fn is_first_mismatch(readings: Seq<CounterReading>, expected: i64, k: int) -> bool {
    &&& 0 <= k < readings.len()
    &&& readings[k].value != expected
    &&& forall|j: int| 0 <= j < k ==> (#[trigger] readings[j]).value == expected
}

/// Every counter of `readings` is `expected`.
pub open spec fn all_equal(readings: Seq<CounterReading>, expected: i64) -> bool {
    forall|i: int| 0 <= i < readings.len() ==> (#[trigger] readings[i]).value == expected
}

/// `counters` maps each identifier that has a reading to the counter
/// that `readings` gives for it, and no other identifier.
pub open spec fn holds_latest(counters: Map<u64, i64>, readings: Seq<CounterReading>) -> bool {
    forall|id: u64| #[trigger]
        latest(readings, id) == if counters.contains_key(id) {
            Some(counters[id])
        } else {
            None::<i64>
        }
}

/// The readings of one node as a map from identifier to counter. Where
/// an identifier was returned more than once its last reading counts.
pub fn collect_counters(readings: &Vec<CounterReading>) -> (counters: HashMap<u64, i64>)
    ensures
        holds_latest(counters@, readings@),
{
    broadcast use group_hash_axioms;

    let mut counters: HashMap<u64, i64> = HashMap::new();
    let mut i: usize = 0;
    assert(readings@.subrange(0, 0) =~= Seq::<CounterReading>::empty());
    while i < readings.len()
        invariant
            i <= readings@.len(),
            holds_latest(counters@, readings@.subrange(0, i as int)),
        decreases readings@.len() - i,
    {
        let ghost before = counters@;
        let ghost upto = readings@.subrange(0, i + 1);
        assert(upto.last() == readings@[i as int]);
        assert(upto.drop_last() =~= readings@.subrange(0, i as int));
        counters.insert(readings[i].id, readings[i].value);
        assert forall|id: u64| #[trigger]
            latest(upto, id) == if counters@.contains_key(id) {
                Some(counters@[id])
            } else {
                None::<i64>
            } by {
            assert(latest(upto.drop_last(), id) == if before.contains_key(id) {
                Some(before[id])
            } else {
                None::<i64>
            });
        }
        i += 1;
    }
    assert(readings@.subrange(0, i as int) =~= readings@);
    counters
}

/// The counter that `counters` holds for `id`.
pub fn find_latest(counters: &HashMap<u64, i64>, id: u64) -> (found: Option<i64>)
    ensures
        found == if counters@.contains_key(id) {
            Some(counters@[id])
        } else {
            None::<i64>
        },
{
    broadcast use group_hash_axioms;

    match counters.get(&id) {
        Some(value) => Some(*value),
        None => None,
    }
}

/// The writes of one touch: each identifier of `batch` with its counter
/// one higher than `readings` gives it. Staleness of the readings is the
/// caller's affair. The first identifier without a reading, or with a
/// counter that cannot be raised, is a fault.
pub fn next_counters(batch: &Vec<u64>, readings: &Vec<CounterReading>) -> (writes: Result<
    Vec<CounterReading>,
    TouchFault,
>)
    ensures
        writes is Ok <==> forall|i: int|
            0 <= i < batch@.len() ==> can_touch(readings@, #[trigger] batch@[i]),
        writes is Ok ==> is_raised(writes.unwrap()@, batch@, readings@),
        writes is Err ==> exists|k: int| #[trigger]
            is_first_fault(batch@, readings@, k) && writes.unwrap_err() == fault_of(
                readings@,
                batch@[k],
            ),
{
    let counters = collect_counters(readings);
    let mut raised: Vec<CounterReading> = Vec::new();
    let mut i: usize = 0;
    while i < batch.len()
        invariant
            holds_latest(counters@, readings@),
            i <= batch@.len(),
            raised@.len() == i,
            forall|j: int| 0 <= j < i ==> can_touch(readings@, #[trigger] batch@[j]),
            forall|j: int|
                0 <= j < i ==> #[trigger] raised@[j] == (CounterReading {
                    id: batch@[j],
                    value: (latest(readings@, batch@[j]).unwrap() + 1) as i64,
                }),
        decreases batch@.len() - i,
    {
        let id: u64 = batch[i];
        let found = find_latest(&counters, id);
        assert(found == latest(readings@, id));
        match found {
            None => {
                assert(is_first_fault(batch@, readings@, i as int));
                return Err(TouchFault::Unread { id });
            },
            Some(value) => {
                if value == i64::MAX {
                    assert(is_first_fault(batch@, readings@, i as int));
                    return Err(TouchFault::Saturated { id });
                }
                raised.push(CounterReading { id, value: value + 1 });
            },
        }
        i += 1;
    }
    Ok(raised)
}

/// The identifier at place `k` of `asked` is the first that has no
/// reading.
pub open spec fn is_first_unread(asked: Seq<u64>, readings: Seq<CounterReading>, k: int) -> bool {
    &&& 0 <= k < asked.len()
    &&& latest(readings, asked[k]) is None
    &&& forall|j: int| 0 <= j < k ==> latest(readings, #[trigger] asked[j]) is Some
}

/// Every identifier of `asked` has a reading.
pub open spec fn all_read(asked: Seq<u64>, readings: Seq<CounterReading>) -> bool {
    forall|i: int| 0 <= i < asked.len() ==> latest(readings, #[trigger] asked[i]) is Some
}

/// A node passes: it returned a counter for every identifier that it was
/// asked for, and every counter that it returned is `expected`.
pub open spec fn passes(asked: Seq<u64>, readings: Seq<CounterReading>, expected: i64) -> bool {
    all_equal(readings, expected) && all_read(asked, readings)
}

/// `fault` is what the check reports: the first reading whose counter
/// differs or, where none differs, the first identifier asked for that
/// has no reading.
pub open spec fn is_fault_of(
    fault: ScalarFault,
    asked: Seq<u64>,
    readings: Seq<CounterReading>,
    expected: i64,
) -> bool {
    match fault {
        ScalarFault::Mismatch { id, found, expected: wanted } => wanted == expected && exists|
            k: int,
        | #[trigger]
            is_first_mismatch(readings, expected, k) && id == readings[k].id && found
                == readings[k].value,
        ScalarFault::Unread { id, expected: wanted } => wanted == expected && all_equal(
            readings,
            expected,
        ) && exists|k: int| #[trigger] is_first_unread(asked, readings, k) && id == asked[k],
    }
}

/// Checks the counters that one node returned for the identifiers
/// `asked` against the expected one. The node passes where it returned a
/// counter for every identifier and each counter is `expected`. The first
/// counter that differs is reported; where none differs, the first
/// identifier without a counter is.
pub fn check_scalar(asked: &Vec<u64>, readings: &Vec<CounterReading>, expected: i64) -> (verdict:
    Result<(), ScalarFault>)
    ensures
        verdict is Ok <==> passes(asked@, readings@, expected),
        verdict is Err ==> is_fault_of(verdict.unwrap_err(), asked@, readings@, expected),
{
    let mut i: usize = 0;
    while i < readings.len()
        invariant
            i <= readings@.len(),
            forall|j: int| 0 <= j < i ==> (#[trigger] readings@[j]).value == expected,
        decreases readings@.len() - i,
    {
        let reading = readings[i];
        if reading.value != expected {
            assert(is_first_mismatch(readings@, expected, i as int));
            return Err(ScalarFault::Mismatch { id: reading.id, found: reading.value, expected });
        }
        i += 1;
    }
    assert(all_equal(readings@, expected));
    let counters = collect_counters(readings);
    let mut k: usize = 0;
    while k < asked.len()
        invariant
            all_equal(readings@, expected),
            holds_latest(counters@, readings@),
            k <= asked@.len(),
            forall|j: int| 0 <= j < k ==> latest(readings@, #[trigger] asked@[j]) is Some,
        decreases asked@.len() - k,
    {
        let found = find_latest(&counters, asked[k]);
        assert(found == latest(readings@, asked@[k as int]));
        if found.is_none() {
            assert(is_first_unread(asked@, readings@, k as int));
            return Err(ScalarFault::Unread { id: asked[k], expected });
        }
        k += 1;
    }
    Ok(())
}

/// A node that passes has the expected counter for every identifier that
/// it was asked for.
pub proof fn passing_node_has_every_counter(
    asked: Seq<u64>,
    readings: Seq<CounterReading>,
    expected: i64,
    place: int,
)
    requires
        passes(asked, readings, expected),
        0 <= place < asked.len(),
    ensures
        latest(readings, asked[place]) == Some(expected),
{
    assert(latest(readings, asked[place]) is Some);
    latest_is_a_reading(readings, asked[place]);
}

/// The counter that every identifier has once `round` and all rounds
/// before it are complete: their number, `round + 1`. There is none
/// where that number is no `i64`.
pub fn expected_after(round: u64) -> (expected: Option<i64>)
    ensures
        expected is Some <==> round + 1 <= i64::MAX,
        expected is Some ==> expected.unwrap() == round + 1,
{
    if round >= i64::MAX as u64 {
        None
    } else {
        Some((round + 1) as i64)
    }
}

/// A touch on fresh readings takes a node from one round to the next:
/// where the readings pass the check for `round`, the writes of the touch
/// pass the check for `round + 1`.
pub proof fn touch_advances_the_round(
    batch: Seq<u64>,
    readings: Seq<CounterReading>,
    raised: Seq<CounterReading>,
    round: i64,
)
    requires
        round < i64::MAX,
        passes(batch, readings, round),
        is_raised(raised, batch, readings),
    ensures
        passes(batch, raised, (round + 1) as i64),
{
    assert forall|i: int| 0 <= i < raised.len() implies (#[trigger] raised[i]).value == round
        + 1 by {
        assert(latest(readings, batch[i]) is Some);
        latest_is_a_reading(readings, batch[i]);
    }
    assert forall|i: int| 0 <= i < batch.len() implies latest(raised, #[trigger] batch[i])
        is Some by {
        assert(raised[i].id == batch[i]);
        every_reading_is_found(raised, i);
    }
}

/// An identifier that has a reading has a counter.
pub proof fn every_reading_is_found(readings: Seq<CounterReading>, place: int)
    requires
        0 <= place < readings.len(),
    ensures
        latest(readings, readings[place].id) is Some,
    decreases readings.len(),
{
    if readings.last().id != readings[place].id {
        assert(place < readings.len() - 1);
        every_reading_is_found(readings.drop_last(), place);
    }
}

/// The counter that `readings` gives for an identifier is that of one of
/// the readings.
pub proof fn latest_is_a_reading(readings: Seq<CounterReading>, id: u64)
    requires
        latest(readings, id) is Some,
    ensures
        exists|k: int|
            0 <= k < readings.len() && (#[trigger] readings[k]).id == id && readings[k].value
                == latest(readings, id).unwrap(),
    decreases readings.len(),
{
    if readings.last().id == id {
        assert(readings[readings.len() - 1].id == id);
    } else {
        latest_is_a_reading(readings.drop_last(), id);
        let k = choose|k: int|
            0 <= k < readings.drop_last().len() && (#[trigger] readings.drop_last()[k]).id == id
                && readings.drop_last()[k].value == latest(readings.drop_last(), id).unwrap();
        assert(readings[k].id == id);
    }
}

impl ScalarFault {
    /// The description of the fault: for a mismatch the counter found,
    /// the expected one and the identifier; for a missing counter the
    /// expected one and the identifier.
    pub open spec fn text(self) -> Seq<char> {
        match self {
            ScalarFault::Mismatch { id, found, expected } => "PAYLOAD COUNTER MISMATCH: "@
                + signed_decimal(found as int) + " != "@ + signed_decimal(expected as int)
                + " (point "@ + decimal(id as nat) + ")"@,
            ScalarFault::Unread { id, expected } => "PAYLOAD COUNTER MISSING: expected "@
                + signed_decimal(expected as int) + " (point "@ + decimal(id as nat) + ")"@,
        }
    }

    /// The description of the fault as a string.
    pub fn description(&self) -> (text: String)
        ensures
            text@ == self.text(),
    {
        let mut text = String::new();
        match self {
            ScalarFault::Mismatch { id, found, expected } => {
                text.append("PAYLOAD COUNTER MISMATCH: ");
                append_signed(&mut text, *found);
                text.append(" != ");
                append_signed(&mut text, *expected);
                text.append(" (point ");
                append_decimal(&mut text, *id as u128);
                text.append(")");
            },
            ScalarFault::Unread { id, expected } => {
                text.append("PAYLOAD COUNTER MISSING: expected ");
                append_signed(&mut text, *expected);
                text.append(" (point ");
                append_decimal(&mut text, *id as u128);
                text.append(")");
            },
        }
        assert(text@ =~= self.text());
        text
    }
}

} // verus!
