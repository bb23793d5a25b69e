//! Pure enrichment: a risk score and the ingest latency of a payment event.

use vstd::prelude::*;
use crate::event::{Direction, EnrichedPaymentEvent, PaymentEvent, Timestamp};
use crate::money::abs;

verus! {

/// Magnitude (minor units) from which an amount counts as large.
pub const LARGE_AMOUNT_MINOR: i64 = 100_000_000;

/// Magnitude (minor units) from which an amount counts as medium.
pub const MEDIUM_AMOUNT_MINOR: i64 = 10_000_000;

/// The risk score of an event: 60 for a large amount or 30 for a medium one (by magnitude),
/// plus 15 for a pay-out, capped at 100.
pub open spec fn risk_of(event: PaymentEvent) -> int {
    let magnitude = abs(event.amount.minor_units as int);
    let amount_part: int = if magnitude >= LARGE_AMOUNT_MINOR {
        60
    } else if magnitude >= MEDIUM_AMOUNT_MINOR {
        30
    } else {
        0
    };
    let direction_part: int = if event.direction == Direction::PayOut {
        15
    } else {
        0
    };
    if amount_part + direction_part > 100 {
        100
    } else {
        amount_part + direction_part
    }
}

/// Quotient of `a` by a positive `d`, rounded toward zero.
pub open spec fn trunc_div(a: int, d: int) -> int {
    if a >= 0 {
        a / d
    } else {
        -((-a) / d)
    }
}

/// Milliseconds from `earlier` to `later`, rounded toward zero (negative when `later` is
/// before `earlier`).
pub open spec fn millis_between_spec(later: Timestamp, earlier: Timestamp) -> int {
    trunc_div(later.total_nanos() - earlier.total_nanos(), 1_000_000)
}

/// The ingest latency recorded for an event seen at `now`: the milliseconds since it occurred,
/// or zero when it is dated in the future.
pub open spec fn latency_of(event: PaymentEvent, now: Timestamp) -> int {
    if millis_between_spec(now, event.occurred_at) > 0 {
        millis_between_spec(now, event.occurred_at)
    } else {
        0
    }
}

/// What enrichment produces from `event` at `now`.
pub open spec fn enriched(event: PaymentEvent, now: Timestamp) -> EnrichedPaymentEvent {
    EnrichedPaymentEvent {
        event,
        risk_score: risk_of(event) as u8,
        ingest_latency_ms: latency_of(event, now) as i64,
        processed_at: now,
    }
}

/// Whether enrichment accepts an event at `now`: both instants in the calendar range and an
/// amount whose magnitude is representable.
pub open spec fn enrichable(event: PaymentEvent, now: Timestamp) -> bool {
    &&& event.amount.minor_units > i64::MIN
    &&& event.occurred_at.is_valid()
    &&& now.is_valid()
}

/// chrono's `DateTime<Utc>` subtraction followed by `TimeDelta::num_milliseconds`: the exact
/// difference of the two instants in whole milliseconds, rounded toward zero. Both instants
/// must lie in chrono's calendar range.
#[verifier::external_body]
fn millis_between(later: &Timestamp, earlier: &Timestamp) -> (ms: i64)
    requires
        later.is_valid(),
        earlier.is_valid(),
    ensures
        ms == millis_between_spec(*later, *earlier),
{
    let later = chrono::DateTime::from_timestamp(later.secs, later.nanos).expect("in range");
    let earlier = chrono::DateTime::from_timestamp(earlier.secs, earlier.nanos).expect("in range");
    (later - earlier).num_milliseconds()
}

/// Explainable heuristic risk score in `0..=100`.
pub fn risk_score(event: &PaymentEvent) -> (score: u8)
    requires
        event.amount.minor_units > i64::MIN,
    ensures
        score == risk_of(*event),
        score <= 100,
{
    let mut score: u32 = 0;
    let magnitude: i64 = if event.amount.minor_units < 0 {
        -event.amount.minor_units
    } else {
        event.amount.minor_units
    };
    if magnitude >= LARGE_AMOUNT_MINOR {
        score = score + 60;
    } else if magnitude >= MEDIUM_AMOUNT_MINOR {
        score = score + 30;
    }
    if event.direction == Direction::PayOut {
        score = score + 15;
    }
    if score > 100 {
        100
    } else {
        score as u8
    }
}

/// Enriches a raw event as of `now`: its risk score, its non-negative ingest latency in
/// milliseconds, and `now` as the processing time.
pub fn enrich(event: PaymentEvent, now: Timestamp) -> (r: EnrichedPaymentEvent)
    requires
        enrichable(event, now),
    ensures
        r == enriched(event, now),
        0 <= r.ingest_latency_ms,
        r.risk_score <= 100,
{
    let elapsed = millis_between(&now, &event.occurred_at);
    let latency_ms = if elapsed > 0 {
        elapsed
    } else {
        0
    };
    let risk_score = risk_score(&event);
    EnrichedPaymentEvent { risk_score, ingest_latency_ms: latency_ms, processed_at: now, event }
}


/// How an event is scored, stated on the amount's magnitude and the direction alone: a pay-in
/// scores 60 from a magnitude of 1,000,000.00 (100,000,000 minor units), 30 from 100,000.00
/// (10,000,000 minor units) and 0 below; a pay-out scores 15 more. The sign of the amount never
/// matters, so any event of a large magnitude scores at least 60.
pub proof fn lemma_risk_by_magnitude_and_direction(event: PaymentEvent)
    ensures
        ({
            let u = event.amount.minor_units as int;
            let magnitude = if u < 0 {
                -u
            } else {
                u
            };
            let base: int = if magnitude >= 100_000_000 {
                60
            } else if magnitude >= 10_000_000 {
                30
            } else {
                0
            };
            &&& event.direction == Direction::PayIn ==> risk_of(event) == base
            &&& event.direction == Direction::PayOut ==> risk_of(event) == base + 15
            &&& magnitude >= 100_000_000 ==> risk_of(event) >= 60
            &&& 0 <= risk_of(event) <= 100
        }),
{
}

/// The score does not depend on the sign of the amount: an event and the same event with the
/// opposite amount score alike.
pub proof fn lemma_risk_ignores_sign(a: PaymentEvent, b: PaymentEvent)
    requires
        a.direction == b.direction,
        a.amount.minor_units as int == -(b.amount.minor_units as int),
    ensures
        risk_of(a) == risk_of(b),
{
}


/// The latency is the whole number of milliseconds elapsed since the event occurred: for an event
/// in the past, `latency` full milliseconds fit in the elapsed time and one more does not; an
/// event dated at or after `now` has latency zero.
pub proof fn lemma_latency_is_whole_millis(event: PaymentEvent, now: Timestamp)
    ensures
        ({
            let elapsed = now.total_nanos() - event.occurred_at.total_nanos();
            let latency = latency_of(event, now);
            &&& elapsed >= 0 ==> latency * 1_000_000 <= elapsed < (latency + 1) * 1_000_000
            &&& elapsed < 1_000_000 ==> latency == 0
            &&& latency >= 0
        }),
{
    let elapsed = now.total_nanos() - event.occurred_at.total_nanos();
    if elapsed >= 0 {
        assert(trunc_div(elapsed, 1_000_000) == elapsed / 1_000_000);
    } else {
        assert(trunc_div(elapsed, 1_000_000) <= 0);
    }
}

} // verus!
