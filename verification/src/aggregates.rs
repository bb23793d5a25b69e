//! A point-in-time snapshot of the running aggregates the pipeline maintains, and the
//! mathematical model of how each event changes them.

use vstd::prelude::*;
use crate::event::{Direction, EnrichedPaymentEvent, PaymentStatus, direction_index, status_index};
use crate::money::{Currency, currency_index};

verus! {

/// Number of payment statuses.
pub const STATUS_COUNT: usize = 8;

/// Number of directions.
pub const DIRECTION_COUNT: usize = 2;

/// Number of currencies.
pub const CURRENCY_COUNT: usize = 8;

/// Immutable snapshot of the real-time aggregates (the read model of the stream). Each table is
/// indexed by the key's position in declaration order, which is also the order keys sort in.
#[derive(Debug, Clone, PartialEq, Eq)]
pub struct AggregatesSnapshot {
    /// Total number of events processed.
    pub total_processed: u64,
    /// Count of events by lifecycle status; a status never seen counts zero.
    pub by_status: Vec<u64>,
    /// Count of events by direction; a direction never seen counts zero.
    pub by_direction: Vec<u64>,
    /// Net settled amount (minor units) by currency, counting only `Completed` events; `None`
    /// for a currency with no completed event.
    pub settled_minor_by_currency: Vec<Option<i64>>,
    /// Highest risk score observed.
    pub max_risk_score: u8,
}

/// The aggregates as mathematical values.
#[verifier::ext_equal]
pub struct AggregatesModel {
    pub total: int,
    pub by_status: Seq<int>,
    pub by_direction: Seq<int>,
    pub settled: Seq<Option<int>>,
    pub max_risk: int,
}

/// Sum of a sequence of integers.
pub open spec fn seq_sum(s: Seq<int>) -> int
    decreases s.len(),
{
    if s.len() == 0 {
        0
    } else {
        seq_sum(s.drop_last()) + s.last()
    }
}

/// The aggregates before any event.
pub open spec fn empty_model() -> AggregatesModel {
    AggregatesModel {
        total: 0,
        by_status: Seq::new(STATUS_COUNT as nat, |_i: int| 0int),
        by_direction: Seq::new(DIRECTION_COUNT as nat, |_i: int| 0int),
        settled: Seq::new(CURRENCY_COUNT as nat, |_i: int| None::<int>),
        max_risk: 0,
    }
}

/// The settled total of a table entry, zero when absent.
pub open spec fn settled_or_zero(entry: Option<int>) -> int {
    match entry {
        Some(v) => v,
        None => 0,
    }
}

/// Folds one enriched event into the aggregates: one more event in total, for its status and
/// for its direction; its amount added to its currency's settled total when it is `Completed`;
/// and the highest risk score kept.
pub open spec fn absorb(m: AggregatesModel, e: EnrichedPaymentEvent) -> AggregatesModel {
    let si = status_index(e.event.status);
    let di = direction_index(e.event.direction);
    let ci = currency_index(e.event.amount.currency);
    AggregatesModel {
        total: m.total + 1,
        by_status: m.by_status.update(si, m.by_status[si] + 1),
        by_direction: m.by_direction.update(di, m.by_direction[di] + 1),
        settled: if e.event.status == PaymentStatus::Completed {
            m.settled.update(ci, Some(settled_or_zero(m.settled[ci]) + e.event.amount.minor_units))
        } else {
            m.settled
        },
        max_risk: if e.risk_score > m.max_risk {
            e.risk_score as int
        } else {
            m.max_risk
        },
    }
}

/// The aggregates after folding `events` in order into `m`.
pub open spec fn absorb_all(m: AggregatesModel, events: Seq<EnrichedPaymentEvent>) -> AggregatesModel
    decreases events.len(),
{
    if events.len() == 0 {
        m
    } else {
        absorb(absorb_all(m, events.drop_last()), events.last())
    }
}

/// One entry per key in each table.
pub open spec fn model_shaped(m: AggregatesModel) -> bool {
    &&& m.by_status.len() == STATUS_COUNT
    &&& m.by_direction.len() == DIRECTION_COUNT
    &&& m.settled.len() == CURRENCY_COUNT
}

/// Whether the model's values fit the snapshot's integer types and its tables have one entry per
/// key, with the status and direction counts each summing to the total.
pub open spec fn model_fits(m: AggregatesModel) -> bool {
    &&& m.by_status.len() == STATUS_COUNT
    &&& m.by_direction.len() == DIRECTION_COUNT
    &&& m.settled.len() == CURRENCY_COUNT
    &&& 0 <= m.total <= u64::MAX
    &&& forall|i: int| 0 <= i < STATUS_COUNT ==> 0 <= #[trigger] m.by_status[i]
    &&& forall|i: int| 0 <= i < DIRECTION_COUNT ==> 0 <= #[trigger] m.by_direction[i]
    &&& forall|i: int| 0 <= i < CURRENCY_COUNT ==> (#[trigger] m.settled[i] matches Some(v)
        ==> i64::MIN <= v <= i64::MAX)
    &&& 0 <= m.max_risk <= u8::MAX
    &&& seq_sum(m.by_status) == m.total
    &&& seq_sum(m.by_direction) == m.total
}

/// Whether folding `e` into `m` keeps every value within its integer type.
pub open spec fn can_absorb(m: AggregatesModel, e: EnrichedPaymentEvent) -> bool {
    &&& m.total < u64::MAX
    &&& e.event.status == PaymentStatus::Completed ==> i64::MIN <= settled_or_zero(
        m.settled[currency_index(e.event.amount.currency)],
    ) + e.event.amount.minor_units <= i64::MAX
}

/// Whether folding `events` one by one into `m` keeps every value within its integer type.
pub open spec fn can_absorb_all(m: AggregatesModel, events: Seq<EnrichedPaymentEvent>) -> bool {
    forall|k: int|
        0 <= k < events.len() ==> can_absorb(
            #[trigger] absorb_all(m, events.take(k)),
            events[k],
        )
}

/// Counts as integers.
pub open spec fn view_u64s(v: Seq<u64>) -> Seq<int> {
    v.map_values(|x: u64| x as int)
}

/// Settled totals as integers.
pub open spec fn view_settled(v: Seq<Option<i64>>) -> Seq<Option<int>> {
    v.map_values(
        |x: Option<i64>|
            match x {
                Some(a) => Some(a as int),
                None => None,
            },
    )
}

impl View for AggregatesSnapshot {
    type V = AggregatesModel;

    open spec fn view(&self) -> AggregatesModel {
        AggregatesModel {
            total: self.total_processed as int,
            by_status: view_u64s(self.by_status@),
            by_direction: view_u64s(self.by_direction@),
            settled: view_settled(self.settled_minor_by_currency@),
            max_risk: self.max_risk_score as int,
        }
    }
}

impl AggregatesSnapshot {
    /// One entry per key in each table, and the status and direction counts each summing to the
    /// total.
    pub open spec fn wf(&self) -> bool {
        model_fits(self@)
    }

    /// Count of events with `status`, `None` when none was seen.
    pub fn status_count(&self, status: PaymentStatus) -> (c: Option<u64>)
        requires
            self.wf(),
        ensures
            c == (if self@.by_status[status_index(status)] == 0 {
                None::<u64>
            } else {
                Some(self@.by_status[status_index(status)] as u64)
            }),
    {
        let n = self.by_status[status.index()];
        if n == 0 {
            None
        } else {
            Some(n)
        }
    }

    /// Count of events with `direction`, `None` when none was seen.
    pub fn direction_count(&self, direction: Direction) -> (c: Option<u64>)
        requires
            self.wf(),
        ensures
            c == (if self@.by_direction[direction_index(direction)] == 0 {
                None::<u64>
            } else {
                Some(self@.by_direction[direction_index(direction)] as u64)
            }),
    {
        let n = self.by_direction[direction.index()];
        if n == 0 {
            None
        } else {
            Some(n)
        }
    }

    /// Net settled amount in `currency`, `None` when no completed event in it was seen.
    pub fn settled_minor(&self, currency: Currency) -> (s: Option<i64>)
        requires
            self.wf(),
        ensures
            s matches Some(v) ==> self@.settled[currency_index(currency)] == Some(v as int),
            s is None ==> self@.settled[currency_index(currency)] is None,
    {
        self.settled_minor_by_currency[currency.index()]
    }
}

impl Default for AggregatesSnapshot {
    /// The empty snapshot: nothing processed.
    fn default() -> (s: Self)
        ensures
            s@ == empty_model(),
            s.wf(),
    {
        let mut by_status: Vec<u64> = Vec::new();
        let mut i: usize = 0;
        while i < STATUS_COUNT
            invariant
                i <= STATUS_COUNT,
                by_status@.len() == i,
                forall|j: int| 0 <= j < i ==> by_status@[j] == 0,
            decreases STATUS_COUNT - i,
        {
            by_status.push(0);
            i = i + 1;
        }
        let mut by_direction: Vec<u64> = Vec::new();
        by_direction.push(0);
        by_direction.push(0);
        let mut settled: Vec<Option<i64>> = Vec::new();
        let mut i: usize = 0;
        while i < CURRENCY_COUNT
            invariant
                i <= CURRENCY_COUNT,
                settled@.len() == i,
                forall|j: int| 0 <= j < i ==> settled@[j] is None,
            decreases CURRENCY_COUNT - i,
        {
            settled.push(None);
            i = i + 1;
        }
        let s = AggregatesSnapshot {
            total_processed: 0,
            by_status,
            by_direction,
            settled_minor_by_currency: settled,
            max_risk_score: 0,
        };
        proof {
            assert(s@.by_status =~= empty_model().by_status);
            assert(s@.by_direction =~= empty_model().by_direction);
            assert(s@.settled =~= empty_model().settled);
            lemma_sum_zeros(STATUS_COUNT as nat);
            lemma_sum_zeros(DIRECTION_COUNT as nat);
        }
        s
    }
}

/// A run of zeros sums to zero.
pub proof fn lemma_sum_zeros(n: nat)
    ensures
        seq_sum(Seq::new(n, |_i: int| 0int)) == 0,
    decreases n,
{
    if n > 0 {
        assert(Seq::new(n, |_i: int| 0int).drop_last() =~= Seq::new((n - 1) as nat, |_i: int| 0int));
        lemma_sum_zeros((n - 1) as nat);
    }
}

/// Adding one to an entry adds one to the sum.
pub proof fn lemma_sum_increment(s: Seq<int>, i: int)
    requires
        0 <= i < s.len(),
    ensures
        seq_sum(s.update(i, s[i] + 1)) == seq_sum(s) + 1,
    decreases s.len(),
{
    if i < s.len() - 1 {
        assert(s.update(i, s[i] + 1).drop_last() =~= s.drop_last().update(i, s[i] + 1));
        lemma_sum_increment(s.drop_last(), i);
    } else {
        assert(s.update(i, s[i] + 1).drop_last() =~= s.drop_last());
    }
}

/// An entry of a sequence of non-negative integers is at most its sum.
pub proof fn lemma_entry_at_most_sum(s: Seq<int>, i: int)
    requires
        0 <= i < s.len(),
        forall|j: int| 0 <= j < s.len() ==> 0 <= #[trigger] s[j],
    ensures
        s[i] <= seq_sum(s),
        0 <= seq_sum(s),
    decreases s.len(),
{
    if s.len() > 0 {
        if i < s.len() - 1 {
            lemma_entry_at_most_sum(s.drop_last(), i);
        } else if s.len() > 1 {
            lemma_entry_at_most_sum(s.drop_last(), 0);
        }
    }
}

/// Folding an event that the model can absorb keeps the model fitting its integer types.
pub proof fn lemma_absorb_fits(m: AggregatesModel, e: EnrichedPaymentEvent)
    requires
        model_fits(m),
        can_absorb(m, e),
    ensures
        model_fits(absorb(m, e)),
{
    let si = status_index(e.event.status);
    let di = direction_index(e.event.direction);
    lemma_sum_increment(m.by_status, si);
    lemma_sum_increment(m.by_direction, di);
    let n = absorb(m, e);
    assert forall|i: int| 0 <= i < CURRENCY_COUNT implies (#[trigger] n.settled[i] matches Some(v)
        ==> i64::MIN <= v <= i64::MAX) by {
        if e.event.status == PaymentStatus::Completed && i == currency_index(e.event.amount.currency) {
        } else {
            assert(n.settled[i] == m.settled[i]);
        }
    }
}

/// Folding two events gives the same aggregates in either order: the aggregates do not depend
/// on the order in which concurrently processed events reach them.
pub proof fn lemma_absorb_commutes(m: AggregatesModel, a: EnrichedPaymentEvent, b: EnrichedPaymentEvent)
    requires
        model_shaped(m),
    ensures
        absorb(absorb(m, a), b) == absorb(absorb(m, b), a),
{
    let ab = absorb(absorb(m, a), b);
    let ba = absorb(absorb(m, b), a);
    assert(ab.by_status =~= ba.by_status);
    assert(ab.by_direction =~= ba.by_direction);
    assert(ab.settled =~= ba.settled);
    assert(ab =~= ba);
}

/// Folding a concatenation is folding its parts one after the other.
pub proof fn lemma_absorb_all_append(
    m: AggregatesModel,
    s: Seq<EnrichedPaymentEvent>,
    t: Seq<EnrichedPaymentEvent>,
)
    ensures
        absorb_all(m, s + t) == absorb_all(absorb_all(m, s), t),
    decreases t.len(),
{
    if t.len() == 0 {
        assert(s + t =~= s);
    } else {
        assert((s + t).drop_last() =~= s + t.drop_last());
        lemma_absorb_all_append(m, s, t.drop_last());
    }
}

/// Folding keeps one entry per key in each table.
pub proof fn lemma_absorb_all_shaped(m: AggregatesModel, t: Seq<EnrichedPaymentEvent>)
    requires
        model_shaped(m),
    ensures
        model_shaped(absorb_all(m, t)),
    decreases t.len(),
{
    if t.len() > 0 {
        lemma_absorb_all_shaped(m, t.drop_last());
    }
}

/// An event folded first has the same effect as the same event folded last.
pub proof fn lemma_absorb_first_is_last(
    m: AggregatesModel,
    x: EnrichedPaymentEvent,
    t: Seq<EnrichedPaymentEvent>,
)
    requires
        model_shaped(m),
    ensures
        absorb_all(absorb(m, x), t) == absorb(absorb_all(m, t), x),
    decreases t.len(),
{
    if t.len() > 0 {
        lemma_absorb_all_shaped(m, t.drop_last());
        lemma_absorb_first_is_last(m, x, t.drop_last());
        lemma_absorb_commutes(absorb_all(m, t.drop_last()), x, t.last());
    }
}

/// The aggregates of a set of events do not depend on the order in which they are folded: any
/// two orderings of the same events (the same multiset) give the same aggregates.
pub proof fn lemma_absorb_all_order_independent(
    m: AggregatesModel,
    s1: Seq<EnrichedPaymentEvent>,
    s2: Seq<EnrichedPaymentEvent>,
)
    requires
        model_shaped(m),
        s1.to_multiset() == s2.to_multiset(),
    ensures
        absorb_all(m, s1) == absorb_all(m, s2),
    decreases s1.len(),
{
    broadcast use vstd::seq_lib::group_to_multiset_ensures;

    if s1.len() == 0 {
        assert(s2.len() == s2.to_multiset().len());
        assert(s2.len() == 0);
    } else {
        let x = s1.last();
        assert(s1 =~= s1.drop_last().push(x));
        assert(s1.to_multiset().count(x) > 0);
        assert(s2.contains(x));
        let j = choose|j: int| 0 <= j < s2.len() && s2[j] == x;
        let r = s2.remove(j);
        let pre = s2.take(j);
        let post = s2.skip(j + 1);
        assert(s2 =~= pre + seq![x] + post);
        assert(r =~= pre + post);
        lemma_absorb_all_append(m, pre + seq![x], post);
        lemma_absorb_all_append(m, pre, seq![x]);
        assert(seq![x].drop_last() =~= Seq::<EnrichedPaymentEvent>::empty());
        let one = seq![x];
        let n = absorb_all(m, pre);
        assert(one.len() == 1);
        assert(one.last() == x);
        assert(one.drop_last() =~= Seq::<EnrichedPaymentEvent>::empty());
        assert(absorb_all(n, one.drop_last()) == n);
        assert(absorb_all(n, one) == absorb(absorb_all(n, one.drop_last()), one.last()));
        lemma_absorb_all_shaped(m, pre);
        lemma_absorb_first_is_last(absorb_all(m, pre), x, post);
        lemma_absorb_all_append(m, pre, post);
        assert(s1.drop_last().to_multiset() =~= r.to_multiset());
        lemma_absorb_all_order_independent(m, s1.drop_last(), r);
    }
}

/// From the empty aggregates, the total counts the events folded, and the status counts and the
/// direction counts each sum to that total.
pub proof fn lemma_absorb_all_counts(events: Seq<EnrichedPaymentEvent>)
    ensures
        absorb_all(empty_model(), events).total == events.len(),
        seq_sum(absorb_all(empty_model(), events).by_status) == events.len(),
        seq_sum(absorb_all(empty_model(), events).by_direction) == events.len(),
        absorb_all(empty_model(), events).by_status.len() == STATUS_COUNT,
        absorb_all(empty_model(), events).by_direction.len() == DIRECTION_COUNT,
    decreases events.len(),
{
    if events.len() == 0 {
        lemma_sum_zeros(STATUS_COUNT as nat);
        lemma_sum_zeros(DIRECTION_COUNT as nat);
    } else {
        lemma_absorb_all_counts(events.drop_last());
        let m = absorb_all(empty_model(), events.drop_last());
        lemma_sum_increment(m.by_status, status_index(events.last().event.status));
        lemma_sum_increment(m.by_direction, direction_index(events.last().event.direction));
    }
}

/// Number of events with status `s`.
pub open spec fn events_with_status(events: Seq<EnrichedPaymentEvent>, s: PaymentStatus) -> int
    decreases events.len(),
{
    if events.len() == 0 {
        0
    } else {
        events_with_status(events.drop_last(), s) + if events.last().event.status == s {
            1int
        } else {
            0int
        }
    }
}

/// Number of events moving money in direction `d`.
pub open spec fn events_with_direction(events: Seq<EnrichedPaymentEvent>, d: Direction) -> int
    decreases events.len(),
{
    if events.len() == 0 {
        0
    } else {
        events_with_direction(events.drop_last(), d) + if events.last().event.direction == d {
            1int
        } else {
            0int
        }
    }
}

/// Sum of the amounts of the `Completed` events in currency `c`, or `None` when there is none.
pub open spec fn completed_total(events: Seq<EnrichedPaymentEvent>, c: Currency) -> Option<int>
    decreases events.len(),
{
    if events.len() == 0 {
        None
    } else {
        let e = events.last().event;
        let before = completed_total(events.drop_last(), c);
        if e.status == PaymentStatus::Completed && e.amount.currency == c {
            Some(settled_or_zero(before) + e.amount.minor_units)
        } else {
            before
        }
    }
}

/// Highest risk score among the events, zero when there is none.
pub open spec fn highest_risk(events: Seq<EnrichedPaymentEvent>) -> int
    decreases events.len(),
{
    if events.len() == 0 {
        0
    } else if events.last().risk_score > highest_risk(events.drop_last()) {
        events.last().risk_score as int
    } else {
        highest_risk(events.drop_last())
    }
}

/// What the aggregates of a stream mean: starting empty, after folding `events` the count for a
/// status (direction) is the number of events with that status (direction), a currency's settled
/// total is the sum of its `Completed` amounts (absent when it has none; other statuses never
/// count), and the risk score kept is the highest seen.
pub proof fn lemma_aggregates_describe_events(
    events: Seq<EnrichedPaymentEvent>,
    s: PaymentStatus,
    d: Direction,
    c: Currency,
)
    ensures
        absorb_all(empty_model(), events).by_status[status_index(s)] == events_with_status(events, s),
        absorb_all(empty_model(), events).by_direction[direction_index(d)] == events_with_direction(
            events,
            d,
        ),
        absorb_all(empty_model(), events).settled[currency_index(c)] == completed_total(events, c),
        absorb_all(empty_model(), events).max_risk == highest_risk(events),
        absorb_all(empty_model(), events).total == events.len(),
    decreases events.len(),
{
    lemma_absorb_all_counts(events);
    if events.len() > 0 {
        lemma_aggregates_describe_events(events.drop_last(), s, d, c);
        lemma_absorb_all_shaped(empty_model(), events.drop_last());
        let e = events.last();
        if e.event.status != s {
            assert(status_index(e.event.status) != status_index(s));
        }
        if e.event.direction != d {
            assert(direction_index(e.event.direction) != direction_index(d));
        }
        if e.event.amount.currency != c {
            assert(currency_index(e.event.amount.currency) != currency_index(c));
        }
    } else {
        lemma_absorb_all_shaped(empty_model(), events);
    }
}

/// Only `Completed` events move a settled total: folding any other event leaves every settled
/// total as it was.
pub proof fn lemma_only_completed_settles(m: AggregatesModel, e: EnrichedPaymentEvent)
    requires
        e.event.status != PaymentStatus::Completed,
    ensures
        absorb(m, e).settled == m.settled,
{
}

} // verus!
