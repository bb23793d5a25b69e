use chrono::{Duration, Utc};
use paystream::aggregates::AggregatesSnapshot;
use paystream::event::{MAX_TIMESTAMP_SECS, MIN_TIMESTAMP_SECS};
use paystream::fetch::{select_batch, FetchedRecord, FetchedValue};
use paystream::pipeline::{
    count_successes, guarded_publish_result, step_after_batch, timed_publish_result, RunStep,
};
use paystream::retry::{RetryDecision, RetryState};
use paystream::schema::QueryRoot;
use paystream::{
    enrich, risk_score, Aggregator, CircuitBreakerError, Currency, Direction,
    EnrichedPaymentEvent, Money, PayStreamError, PaymentEvent, PaymentStatus, TimeoutError,
    Timestamp,
};

fn now() -> Timestamp {
    let t = Utc::now();
    Timestamp::new(t.timestamp(), t.timestamp_subsec_nanos())
}

fn stamp(t: chrono::DateTime<Utc>) -> Timestamp {
    Timestamp::new(t.timestamp(), t.timestamp_subsec_nanos())
}

fn event(direction: Direction, minor: i64) -> PaymentEvent {
    PaymentEvent {
        payment_id: 0,
        direction,
        account: "acct-1".to_string(),
        amount: Money::new(Currency::MXN, minor),
        status: PaymentStatus::Completed,
        occurred_at: now(),
    }
}

fn event_with(direction: Direction, status: PaymentStatus, minor: i64) -> PaymentEvent {
    PaymentEvent {
        payment_id: 7,
        direction,
        account: "a".to_string(),
        amount: Money::new(Currency::MXN, minor),
        status,
        occurred_at: now(),
    }
}

fn enriched(direction: Direction, status: PaymentStatus, minor: i64) -> EnrichedPaymentEvent {
    enrich(event_with(direction, status, minor), now())
}

#[test]
fn small_pay_in_is_low_risk() {
    assert_eq!(risk_score(&event(Direction::PayIn, 10_00)), 0);
}

#[test]
fn large_pay_out_is_high_risk() {
    assert_eq!(risk_score(&event(Direction::PayOut, 2_000_000_00)), 75);
}

#[test]
fn latency_is_non_negative() {
    let mut e = event(Direction::PayIn, 100);
    e.occurred_at = stamp(Utc::now() + Duration::seconds(5)); // future-dated (clock skew)
    let enriched = enrich(e, now());
    assert!(enriched.ingest_latency_ms >= 0);
}

#[test]
fn enrich_computes_positive_latency() {
    let mut e = event(Direction::PayIn, 100);
    let now = Utc::now();
    e.occurred_at = stamp(now - Duration::milliseconds(250));
    let enriched = enrich(e, stamp(now));
    assert_eq!(enriched.ingest_latency_ms, 250);
}

#[test]
fn risk_score_thresholds() {
    assert_eq!(risk_score(&event(Direction::PayIn, 100_000_00)), 30);
    assert_eq!(risk_score(&event(Direction::PayIn, 99_999_99)), 0);
    assert_eq!(risk_score(&event(Direction::PayIn, -1_000_000_00)), 60);
    assert_eq!(risk_score(&event(Direction::PayOut, -100_000_00)), 45);
    assert_eq!(risk_score(&event(Direction::PayOut, 0)), 15);
    assert_eq!(risk_score(&event(Direction::PayOut, i64::MAX)), 75);
}

#[test]
fn latency_rounds_toward_zero_and_clamps() {
    let mut e = event(Direction::PayIn, 1);
    e.occurred_at = Timestamp::new(100, 999_999_999);
    let later = Timestamp::new(101, 999_999);
    // 1_000_000 ns apart: exactly one millisecond.
    assert_eq!(enrich(e.clone(), later).ingest_latency_ms, 1);
    let later = Timestamp::new(101, 999_998);
    assert_eq!(enrich(e.clone(), later).ingest_latency_ms, 0);
    let much_later = Timestamp::new(3_700, 500_000_000);
    let r = enrich(e.clone(), much_later);
    assert_eq!(r.ingest_latency_ms, 3_599_500);
    assert_eq!(r.processed_at, much_later);
    assert_eq!(r.event, e);
    let earlier = Timestamp::new(50, 0);
    assert_eq!(enrich(e, earlier).ingest_latency_ms, 0);
}

#[test]
fn counts_and_totals_accumulate() {
    let mut agg = Aggregator::new();
    agg.update(&enriched(
        Direction::PayIn,
        PaymentStatus::Completed,
        1_000_00,
    ));
    agg.update(&enriched(
        Direction::PayOut,
        PaymentStatus::Completed,
        500_00,
    ));
    agg.update(&enriched(Direction::PayIn, PaymentStatus::Failed, 999_00));

    let snap = agg.snapshot();
    assert_eq!(snap.total_processed, 3);
    assert_eq!(snap.status_count(PaymentStatus::Completed), Some(2));
    assert_eq!(snap.status_count(PaymentStatus::Failed), Some(1));
    assert_eq!(snap.direction_count(Direction::PayIn), Some(2));
    // Only COMPLETED contributes to settled totals.
    assert_eq!(snap.settled_minor(Currency::MXN), Some(1_500_00));
}

#[test]
fn tracks_max_risk_score() {
    let mut agg = Aggregator::new();
    agg.update(&enriched(Direction::PayIn, PaymentStatus::Completed, 10_00));
    agg.update(&enriched(
        Direction::PayOut,
        PaymentStatus::Completed,
        2_000_000_00,
    ));
    assert_eq!(agg.snapshot().max_risk_score, 75);
}

#[test]
fn aggregation_does_not_depend_on_order() {
    let a = enriched(Direction::PayIn, PaymentStatus::Completed, 300);
    let b = enriched(Direction::PayOut, PaymentStatus::Rejected, -5_000_000_00);
    let c = enriched(Direction::PayOut, PaymentStatus::Completed, -100);
    let mut x = Aggregator::new();
    let mut y = Aggregator::new();
    for e in [&a, &b, &c] {
        x.update(e);
    }
    for e in [&c, &a, &b] {
        y.update(e);
    }
    assert_eq!(x.snapshot(), y.snapshot());
    let s = x.snapshot();
    assert_eq!(s.settled_minor(Currency::MXN), Some(200));
    assert_eq!(s.status_count(PaymentStatus::Rejected), Some(1));
    assert_eq!(s.status_count(PaymentStatus::Initiated), None);
    assert_eq!(s.max_risk_score, 75);
}

#[test]
fn empty_snapshot_has_nothing() {
    let s = AggregatesSnapshot::default();
    assert_eq!(s.total_processed, 0);
    assert_eq!(s.by_status, vec![0; 8]);
    assert_eq!(s.by_direction, vec![0; 2]);
    assert_eq!(s.settled_minor(Currency::USD), None);
    assert_eq!(Aggregator::new().snapshot(), s);
}

#[test]
fn processes_batch_enriches_aggregates_and_publishes() {
    let events = vec![
        event_with(Direction::PayIn, PaymentStatus::Completed, 1_000_00),
        event_with(Direction::PayOut, PaymentStatus::Completed, 500_00),
        event_with(Direction::PayIn, PaymentStatus::Failed, 250_00),
    ];
    let mut aggregator = Aggregator::new();
    let at = now();
    let mut published = Vec::new();
    for e in events.clone() {
        let enriched = enrich(e, at);
        aggregator.update(&enriched);
        published.push(enriched);
    }
    assert_eq!(published.len(), 3);
    for (e, o) in events.iter().zip(published.iter()) {
        assert_eq!(&o.event, e);
        assert_eq!(o.processed_at, at);
    }
    let processed = count_successes(&vec![true, true, true]);
    assert_eq!(processed, 3);
    let snap = aggregator.snapshot();
    assert_eq!(snap.total_processed, 3);
    assert_eq!(snap.status_count(PaymentStatus::Completed), Some(2));
    assert_eq!(snap.settled_minor(Currency::MXN), Some(1_500_00));
}

#[test]
fn successes_are_counted() {
    assert_eq!(count_successes(&vec![]), 0);
    assert_eq!(count_successes(&vec![false, true, false, true, true]), 3);
}

#[test]
fn publish_results_are_mapped() {
    assert!(timed_publish_result(Ok(Ok(()))).is_ok());
    match timed_publish_result(Err(TimeoutError(std::time::Duration::from_secs(1)))) {
        Err(PayStreamError::Pipeline(m)) => assert_eq!(m, "publish timed out"),
        other => panic!("unexpected {other:?}"),
    }
    match timed_publish_result(Ok(Err(PayStreamError::Kafka("down".to_string())))) {
        Err(PayStreamError::Kafka(m)) => assert_eq!(m, "down"),
        other => panic!("unexpected {other:?}"),
    }
    assert!(guarded_publish_result(Ok(())).is_ok());
    match guarded_publish_result(Err(CircuitBreakerError::Open)) {
        Err(PayStreamError::Pipeline(m)) => assert_eq!(m, "circuit breaker open"),
        other => panic!("unexpected {other:?}"),
    }
    match guarded_publish_result(Err(CircuitBreakerError::Inner(PayStreamError::Config(
        "x".to_string(),
    )))) {
        Err(PayStreamError::Config(m)) => assert_eq!(m, "x"),
        other => panic!("unexpected {other:?}"),
    }
}

#[test]
fn empty_source_yields_zero() {
    assert_eq!(step_after_batch(&Ok(0)), RunStep::IdleBackoff);
    assert_eq!(step_after_batch(&Ok(4)), RunStep::Continue);
    assert_eq!(
        step_after_batch(&Err(PayStreamError::Kafka("x".to_string()))),
        RunStep::IdleBackoff
    );
    let batch = select_batch(9, vec![], 10);
    assert!(batch.events.is_empty());
    assert_eq!(batch.next_offset, 9);
}

#[test]
fn batch_selection_skips_undecodable_and_stops_when_full() {
    let e1 = event(Direction::PayIn, 1);
    let e2 = event(Direction::PayOut, 2);
    let e3 = event(Direction::PayIn, 3);
    let records = vec![
        FetchedRecord { offset: 10, value: FetchedValue::Event(e1.clone()) },
        FetchedRecord { offset: 11, value: FetchedValue::Undecodable },
        FetchedRecord { offset: 12, value: FetchedValue::Missing },
        FetchedRecord { offset: 13, value: FetchedValue::Event(e2.clone()) },
        FetchedRecord { offset: 14, value: FetchedValue::Event(e3.clone()) },
    ];
    let batch = select_batch(10, records.clone(), 2);
    assert_eq!(batch.events, vec![e1.clone(), e2.clone()]);
    assert_eq!(batch.next_offset, 14);
    let all = select_batch(10, records.clone(), 10);
    assert_eq!(all.events, vec![e1.clone(), e2, e3]);
    assert_eq!(all.next_offset, 15);
    // With no room at all, nothing is consumed.
    let none = select_batch(10, records.clone(), 0);
    assert!(none.events.is_empty());
    assert_eq!(none.next_offset, 10);
    let one = select_batch(10, records, 1);
    assert_eq!(one.events, vec![e1]);
    assert_eq!(one.next_offset, 11);
}

#[test]
fn aggregates_query_reflects_processed_events() {
    let mut aggregator = Aggregator::new();
    aggregator.update(&enrich(
        event_with(Direction::PayIn, PaymentStatus::Completed, 1_000_00),
        now(),
    ));
    let root = QueryRoot;
    assert_eq!(root.health(), "UP");
    let view = root.aggregates(&aggregator);
    assert_eq!(view.total_processed, 1);
    assert_eq!(view.settled.len(), 1);
    assert_eq!(view.settled[0].currency, "MXN");
    assert_eq!(view.settled[0].settled_minor_units, 1_000_00);
    assert_eq!(view.by_status.len(), 1);
    assert_eq!(view.by_status[0].status, "Completed");
    assert_eq!(view.by_direction[0].direction, "PayIn");
}

#[test]
fn aggregates_rows_come_in_key_order() {
    let mut aggregator = Aggregator::new();
    aggregator.update(&enriched(Direction::PayOut, PaymentStatus::Rejected, 1));
    aggregator.update(&enriched(Direction::PayIn, PaymentStatus::Initiated, 1));
    let view = QueryRoot.aggregates(&aggregator);
    let names: Vec<&str> = view.by_status.iter().map(|r| r.status.as_str()).collect();
    assert_eq!(names, vec!["Initiated", "Rejected"]);
    let dirs: Vec<&str> = view.by_direction.iter().map(|r| r.direction.as_str()).collect();
    assert_eq!(dirs, vec!["PayIn", "PayOut"]);
    assert!(view.settled.is_empty());
    assert_eq!(view.max_risk_score, 15);
}

#[test]
fn latency_across_the_whole_calendar_range() {
    let mut e = event(Direction::PayIn, 1);
    e.occurred_at = Timestamp::new(MIN_TIMESTAMP_SECS, 0);
    let r = enrich(e.clone(), Timestamp::new(MAX_TIMESTAMP_SECS, 999_999_999));
    assert_eq!(
        r.ingest_latency_ms,
        (MAX_TIMESTAMP_SECS - MIN_TIMESTAMP_SECS) * 1000 + 999
    );
    e.occurred_at = Timestamp::new(MAX_TIMESTAMP_SECS, 0);
    let r = enrich(e, Timestamp::new(MIN_TIMESTAMP_SECS, 0));
    assert_eq!(r.ingest_latency_ms, 0);
}

#[test]
fn calendar_range_is_exactly_the_representable_one() {
    assert!(chrono::DateTime::from_timestamp(MIN_TIMESTAMP_SECS, 0).is_some());
    assert!(chrono::DateTime::from_timestamp(MIN_TIMESTAMP_SECS - 1, 999_999_999).is_none());
    assert!(chrono::DateTime::from_timestamp(MAX_TIMESTAMP_SECS, 999_999_999).is_some());
    assert!(chrono::DateTime::from_timestamp(MAX_TIMESTAMP_SECS + 1, 0).is_none());
}

#[test]
fn transient_publish_failures_are_retried() {
    let mut breaker = paystream::CircuitBreaker::new(5, 10_000_000_000);
    let mut retry = RetryState::new(4);
    let mut attempts = 0;
    let published = loop {
        attempts += 1;
        let at = attempts as u128;
        let outcome = if !breaker.allow_request(at) {
            Err(CircuitBreakerError::Open)
        } else {
            let sink_result = if attempts <= 2 {
                Err(PayStreamError::Kafka(format!("transient publish failure #{attempts}")))
            } else {
                Ok(())
            };
            breaker.record_outcome(timed_publish_result(Ok(sink_result)), at)
        };
        match guarded_publish_result(outcome) {
            Ok(()) => break true,
            Err(_) => match retry.on_failure() {
                RetryDecision::GiveUp => break false,
                RetryDecision::RetryAfterBackoff => {}
            },
        }
    };
    assert!(published);
    assert_eq!(attempts, 3);
    assert_eq!(breaker.state(), paystream::State::Closed);
}

#[test]
fn updates_that_would_overflow_are_recognised() {
    let mut aggregator = Aggregator::new();
    let big = enriched(Direction::PayIn, PaymentStatus::Completed, i64::MAX);
    assert!(aggregator.can_update(&big));
    aggregator.update(&big);
    let more = enriched(Direction::PayIn, PaymentStatus::Completed, 1);
    assert!(!aggregator.can_update(&more));
    let failed = enriched(Direction::PayIn, PaymentStatus::Failed, 1);
    assert!(aggregator.can_update(&failed));
    let back = enriched(Direction::PayOut, PaymentStatus::Completed, -1);
    assert!(aggregator.can_update(&back));
}
