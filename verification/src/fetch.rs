//! Turning the records fetched from an input partition into a batch of payment events and the
//! offset to read from next. Records are consumed in order; records without a value or whose
//! value does not decode are skipped; consumption stops once the batch holds `max` events.

use vstd::prelude::*;
use crate::event::PaymentEvent;

verus! {

/// The value of a fetched record, as the decoder saw it.
#[derive(Debug, Clone, PartialEq, Eq)]
pub enum FetchedValue {
    /// The record carries no value.
    Missing,
    /// The value is not a payment event.
    Undecodable,
    /// The value decoded to this event.
    Event(PaymentEvent),
}

/// A fetched record: its offset in the partition and its value.
#[derive(Debug, Clone, PartialEq, Eq)]
pub struct FetchedRecord {
    pub offset: i64,
    pub value: FetchedValue,
}

/// A batch of events and the offset to fetch from next.
#[derive(Debug, Clone, PartialEq, Eq)]
pub struct SelectedBatch {
    pub events: Vec<PaymentEvent>,
    pub next_offset: i64,
}

/// The state after scanning the first `k` records from `offset`: the events kept and the next
/// offset. Once the batch holds `max` events no further record is consumed.
pub open spec fn scan(offset: int, records: Seq<FetchedRecord>, max: int, k: nat) -> (
    Seq<PaymentEvent>,
    int,
)
    decreases k,
{
    if k == 0 {
        (Seq::empty(), offset)
    } else {
        let (events, next) = scan(offset, records, max, (k - 1) as nat);
        if events.len() >= max {
            (events, next)
        } else {
            let r = records[k - 1];
            let kept = match r.value {
                FetchedValue::Event(e) => events.push(e),
                _ => events,
            };
            (kept, r.offset + 1)
        }
    }
}

/// Selects the batch from the records fetched at `offset`: the events of the records consumed
/// and the offset just past the last record consumed (`offset` when there is none). Records are
/// consumed while the batch holds fewer than `max` events, so it holds at most `max`. Each
/// record's offset must be below `i64::MAX`.
pub fn select_batch(offset: i64, records: Vec<FetchedRecord>, max: usize) -> (b: SelectedBatch)
    requires
        forall|i: int| 0 <= i < records@.len() ==> #[trigger] records@[i].offset < i64::MAX,
    ensures
        b.events@ == scan(offset as int, records@, max as int, records@.len()).0,
        b.next_offset == scan(offset as int, records@, max as int, records@.len()).1,
        b.events@.len() <= max,
{
    let ghost recs = records@;
    let mut events: Vec<PaymentEvent> = Vec::new();
    let mut next_offset = offset;
    for record in it: records
        invariant
            recs == records@,
            it.seq() == recs,
            forall|i: int| 0 <= i < recs.len() ==> #[trigger] recs[i].offset < i64::MAX,
            scan(offset as int, recs, max as int, it.index() as nat) == (
                events@,
                next_offset as int,
            ),
            events@.len() <= max,
    {
        let ghost k = it.index();
        assert(record == recs[k]);
        if events.len() < max {
            next_offset = record.offset + 1;
            match record.value {
                FetchedValue::Event(event) => {
                    events.push(event);
                },
                _ => {},
            }
        }
        assert(scan(offset as int, recs, max as int, (k + 1) as nat) == (
            events@,
            next_offset as int,
        ));
    }
    SelectedBatch { events, next_offset }
}

/// A batch never holds more than `max` events.
pub proof fn lemma_batch_at_most_max(offset: int, records: Seq<FetchedRecord>, max: int, k: nat)
    requires
        0 <= max,
        k <= records.len(),
    ensures
        scan(offset, records, max, k).0.len() <= max,
    decreases k,
{
    if k > 0 {
        lemma_batch_at_most_max(offset, records, max, (k - 1) as nat);
    }
}

/// Nothing is dropped while the batch has room: while it holds fewer than `max` events, the
/// next record is consumed, its event (if it decoded) is kept in order, and the next offset is
/// just past it. Once it is full, no record is consumed.
pub proof fn lemma_scan_keeps_decoded(offset: int, records: Seq<FetchedRecord>, max: int, k: nat)
    requires
        1 <= k <= records.len(),
    ensures
        scan(offset, records, max, (k - 1) as nat).0.len() < max ==> {
            &&& scan(offset, records, max, k).1 == records[k - 1].offset + 1
            &&& records[k - 1].value matches FetchedValue::Event(e) ==> scan(offset, records, max, k).0
                == scan(offset, records, max, (k - 1) as nat).0.push(e)
            &&& !(records[k - 1].value is Event) ==> scan(offset, records, max, k).0 == scan(
                offset,
                records,
                max,
                (k - 1) as nat,
            ).0
        },
        scan(offset, records, max, (k - 1) as nat).0.len() >= max ==> scan(offset, records, max, k)
            == scan(offset, records, max, (k - 1) as nat),
{
}

} // verus!
