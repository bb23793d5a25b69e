//! The query side: a liveness marker and the view of the real-time aggregates served to clients.

use vstd::prelude::*;
use vstd::string::*;
use crate::aggregates::{AggregatesModel, CURRENCY_COUNT, DIRECTION_COUNT, STATUS_COUNT};
use crate::aggregator::Aggregator;
use crate::event::{Direction, PaymentStatus, direction_name, status_name};
use crate::money::{Currency, currency_code};

verus! {

/// Count of events for one status.
#[derive(Debug, Clone, PartialEq, Eq)]
pub struct StatusCount {
    pub status: String,
    pub count: u64,
}

/// Count of events for one direction.
#[derive(Debug, Clone, PartialEq, Eq)]
pub struct DirectionCount {
    pub direction: String,
    pub count: u64,
}

/// Settled total for one currency.
#[derive(Debug, Clone, PartialEq, Eq)]
pub struct CurrencyTotal {
    pub currency: String,
    pub settled_minor_units: i64,
}

/// The aggregates as served to clients: one row per status, direction and currency seen, in key
/// order.
#[derive(Debug, Clone, PartialEq, Eq)]
pub struct Aggregates {
    pub total_processed: u64,
    pub max_risk_score: u32,
    pub by_status: Vec<StatusCount>,
    pub by_direction: Vec<DirectionCount>,
    pub settled: Vec<CurrencyTotal>,
}

/// Root of the queries.
pub struct QueryRoot;

/// The status at a position in declaration order.
pub open spec fn status_at(i: int) -> PaymentStatus {
    if i == 0 {
        PaymentStatus::Initiated
    } else if i == 1 {
        PaymentStatus::ComplianceApproved
    } else if i == 2 {
        PaymentStatus::FundsReserved
    } else if i == 3 {
        PaymentStatus::RailSettled
    } else if i == 4 {
        PaymentStatus::LedgerPosted
    } else if i == 5 {
        PaymentStatus::Completed
    } else if i == 6 {
        PaymentStatus::Failed
    } else {
        PaymentStatus::Rejected
    }
}

/// The direction at a position in declaration order.
pub open spec fn direction_at(i: int) -> Direction {
    if i == 0 {
        Direction::PayIn
    } else {
        Direction::PayOut
    }
}

/// The currency at a position in declaration order.
pub open spec fn currency_at(i: int) -> Currency {
    if i == 0 {
        Currency::USD
    } else if i == 1 {
        Currency::EUR
    } else if i == 2 {
        Currency::MXN
    } else if i == 3 {
        Currency::BRL
    } else if i == 4 {
        Currency::ARS
    } else if i == 5 {
        Currency::BTC
    } else if i == 6 {
        Currency::ETH
    } else {
        Currency::USDC
    }
}

/// Rows `(name, count)` for the statuses among the first `n` positions that were seen.
pub open spec fn status_rows(counts: Seq<int>, n: nat) -> Seq<(Seq<char>, int)>
    decreases n,
{
    if n == 0 {
        Seq::empty()
    } else {
        let p = status_rows(counts, (n - 1) as nat);
        if counts[n - 1] > 0 {
            p.push((status_name(status_at(n - 1)), counts[n - 1]))
        } else {
            p
        }
    }
}

/// Rows `(name, count)` for the directions among the first `n` positions that were seen.
pub open spec fn direction_rows(counts: Seq<int>, n: nat) -> Seq<(Seq<char>, int)>
    decreases n,
{
    if n == 0 {
        Seq::empty()
    } else {
        let p = direction_rows(counts, (n - 1) as nat);
        if counts[n - 1] > 0 {
            p.push((direction_name(direction_at(n - 1)), counts[n - 1]))
        } else {
            p
        }
    }
}

/// Rows `(code, total)` for the currencies among the first `n` positions with a settled total.
pub open spec fn settled_rows(settled: Seq<Option<int>>, n: nat) -> Seq<(Seq<char>, int)>
    decreases n,
{
    if n == 0 {
        Seq::empty()
    } else {
        let p = settled_rows(settled, (n - 1) as nat);
        match settled[n - 1] {
            Some(v) => p.push((currency_code(currency_at(n - 1)), v)),
            None => p,
        }
    }
}

/// The `(name, count)` pairs of status rows.
pub open spec fn status_count_rows(v: Seq<StatusCount>) -> Seq<(Seq<char>, int)> {
    v.map_values(|r: StatusCount| (r.status@, r.count as int))
}

/// The `(name, count)` pairs of direction rows.
pub open spec fn direction_count_rows(v: Seq<DirectionCount>) -> Seq<(Seq<char>, int)> {
    v.map_values(|r: DirectionCount| (r.direction@, r.count as int))
}

/// The `(code, total)` pairs of settled rows.
pub open spec fn currency_total_rows(v: Seq<CurrencyTotal>) -> Seq<(Seq<char>, int)> {
    v.map_values(|r: CurrencyTotal| (r.currency@, r.settled_minor_units as int))
}

/// Whether `a` is the client view of the aggregates `m`.
pub open spec fn presents(a: Aggregates, m: AggregatesModel) -> bool {
    &&& a.total_processed == m.total
    &&& a.max_risk_score == m.max_risk
    &&& status_count_rows(a.by_status@) == status_rows(m.by_status, STATUS_COUNT as nat)
    &&& direction_count_rows(a.by_direction@) == direction_rows(
        m.by_direction,
        DIRECTION_COUNT as nat,
    )
    &&& currency_total_rows(a.settled@) == settled_rows(m.settled, CURRENCY_COUNT as nat)
}

/// The status at a position in declaration order.
fn status_from_index(i: usize) -> (s: PaymentStatus)
    ensures
        s == status_at(i as int),
{
    match i {
        0 => PaymentStatus::Initiated,
        1 => PaymentStatus::ComplianceApproved,
        2 => PaymentStatus::FundsReserved,
        3 => PaymentStatus::RailSettled,
        4 => PaymentStatus::LedgerPosted,
        5 => PaymentStatus::Completed,
        6 => PaymentStatus::Failed,
        _ => PaymentStatus::Rejected,
    }
}

/// The direction at a position in declaration order.
fn direction_from_index(i: usize) -> (d: Direction)
    ensures
        d == direction_at(i as int),
{
    match i {
        0 => Direction::PayIn,
        _ => Direction::PayOut,
    }
}

/// The currency at a position in declaration order.
fn currency_from_index(i: usize) -> (c: Currency)
    ensures
        c == currency_at(i as int),
{
    match i {
        0 => Currency::USD,
        1 => Currency::EUR,
        2 => Currency::MXN,
        3 => Currency::BRL,
        4 => Currency::ARS,
        5 => Currency::BTC,
        6 => Currency::ETH,
        _ => Currency::USDC,
    }
}

impl QueryRoot {
    /// Liveness marker.
    pub fn health(&self) -> (s: &'static str)
        ensures
            s@ == "UP"@,
    {
        "UP"
    }

    /// Current real-time aggregates over the processed event stream.
    pub fn aggregates(&self, aggregator: &Aggregator) -> (a: Aggregates)
        ensures
            presents(a, aggregator@),
    {
        let snapshot = aggregator.snapshot();
        let ghost m = snapshot@;
        let mut by_status: Vec<StatusCount> = Vec::new();
        let mut i: usize = 0;
        while i < STATUS_COUNT
            invariant
                i <= STATUS_COUNT,
                m == snapshot@,
                snapshot.wf(),
                status_count_rows(by_status@) == status_rows(m.by_status, i as nat),
            decreases STATUS_COUNT - i,
        {
            let count = snapshot.by_status[i];
            let ghost before = by_status@;
            if count > 0 {
                by_status.push(StatusCount { status: status_from_index(i).name(), count });
                assert(status_count_rows(by_status@) =~= status_count_rows(before).push(
                    (status_name(status_at(i as int)), count as int),
                ));
            }
            i = i + 1;
        }
        let mut by_direction: Vec<DirectionCount> = Vec::new();
        let mut i: usize = 0;
        while i < DIRECTION_COUNT
            invariant
                i <= DIRECTION_COUNT,
                m == snapshot@,
                snapshot.wf(),
                direction_count_rows(by_direction@) == direction_rows(m.by_direction, i as nat),
            decreases DIRECTION_COUNT - i,
        {
            let count = snapshot.by_direction[i];
            let ghost before = by_direction@;
            if count > 0 {
                by_direction.push(
                    DirectionCount { direction: direction_from_index(i).name(), count },
                );
                assert(direction_count_rows(by_direction@) =~= direction_count_rows(before).push(
                    (direction_name(direction_at(i as int)), count as int),
                ));
            }
            i = i + 1;
        }
        let mut settled: Vec<CurrencyTotal> = Vec::new();
        let mut i: usize = 0;
        while i < CURRENCY_COUNT
            invariant
                i <= CURRENCY_COUNT,
                m == snapshot@,
                snapshot.wf(),
                currency_total_rows(settled@) == settled_rows(m.settled, i as nat),
            decreases CURRENCY_COUNT - i,
        {
            let ghost before = settled@;
            match snapshot.settled_minor_by_currency[i] {
                Some(total) => {
                    settled.push(
                        CurrencyTotal {
                            currency: currency_from_index(i).to_string(),
                            settled_minor_units: total,
                        },
                    );
                    assert(currency_total_rows(settled@) =~= currency_total_rows(before).push(
                        (currency_code(currency_at(i as int)), total as int),
                    ));
                },
                None => {},
            }
            i = i + 1;
        }
        Aggregates {
            total_processed: snapshot.total_processed,
            max_risk_score: snapshot.max_risk_score as u32,
            by_status,
            by_direction,
            settled,
        }
    }
}


/// Positions and keys correspond one to one: the key at a key's position is that key.
pub proof fn lemma_positions_round_trip(s: PaymentStatus, d: Direction, c: Currency)
    ensures
        status_at(crate::event::status_index(s)) == s,
        direction_at(crate::event::direction_index(d)) == d,
        currency_at(crate::money::currency_index(c)) == c,
{
}

/// The status rows carry each status's own count under its own name: every status seen among
/// the first `n` positions has a row `(status_name(s), count of s)`.
pub proof fn lemma_status_rows_label_their_counts(counts: Seq<int>, n: nat, s: PaymentStatus)
    requires
        crate::event::status_index(s) < n,
        n <= counts.len(),
        counts[crate::event::status_index(s)] > 0,
    ensures
        status_rows(counts, n).contains((status_name(s), counts[crate::event::status_index(s)])),
    decreases n,
{
    let i = crate::event::status_index(s);
    let p = status_rows(counts, (n - 1) as nat);
    if i == n - 1 {
        assert(status_at(i) == s);
        assert(status_rows(counts, n) == p.push((status_name(s), counts[i])));
        assert(status_rows(counts, n)[p.len() as int] == (status_name(s), counts[i]));
    } else {
        lemma_status_rows_label_their_counts(counts, (n - 1) as nat, s);
        let j = choose|j: int| 0 <= j < p.len() && p[j] == (status_name(s), counts[i]);
        if counts[n - 1] > 0 {
            assert(status_rows(counts, n)[j] == p[j]);
        }
    }
}

/// The direction rows carry each direction's own count under its own name.
pub proof fn lemma_direction_rows_label_their_counts(counts: Seq<int>, n: nat, d: Direction)
    requires
        crate::event::direction_index(d) < n,
        n <= counts.len(),
        counts[crate::event::direction_index(d)] > 0,
    ensures
        direction_rows(counts, n).contains(
            (direction_name(d), counts[crate::event::direction_index(d)]),
        ),
    decreases n,
{
    let i = crate::event::direction_index(d);
    let p = direction_rows(counts, (n - 1) as nat);
    if i == n - 1 {
        assert(direction_at(i) == d);
        assert(direction_rows(counts, n)[p.len() as int] == (direction_name(d), counts[i]));
    } else {
        lemma_direction_rows_label_their_counts(counts, (n - 1) as nat, d);
        let j = choose|j: int| 0 <= j < p.len() && p[j] == (direction_name(d), counts[i]);
        if counts[n - 1] > 0 {
            assert(direction_rows(counts, n)[j] == p[j]);
        }
    }
}

/// The settled rows carry each currency's own total under its own code.
pub proof fn lemma_settled_rows_label_their_totals(settled: Seq<Option<int>>, n: nat, c: Currency)
    requires
        crate::money::currency_index(c) < n,
        n <= settled.len(),
        settled[crate::money::currency_index(c)] is Some,
    ensures
        settled_rows(settled, n).contains(
            (currency_code(c), settled[crate::money::currency_index(c)]->Some_0),
        ),
    decreases n,
{
    let i = crate::money::currency_index(c);
    let p = settled_rows(settled, (n - 1) as nat);
    if i == n - 1 {
        assert(currency_at(i) == c);
        assert(settled_rows(settled, n)[p.len() as int] == (currency_code(c), settled[i]->Some_0));
    } else {
        lemma_settled_rows_label_their_totals(settled, (n - 1) as nat, c);
        let j = choose|j: int| 0 <= j < p.len() && p[j] == (currency_code(c), settled[i]->Some_0);
        if settled[n - 1] is Some {
            assert(settled_rows(settled, n)[j] == p[j]);
        }
    }
}

} // verus!
