//! Running aggregates over the event stream: the stream's in-memory read model.

use vstd::prelude::*;
use crate::aggregates::{
    AggregatesModel, AggregatesSnapshot, absorb, can_absorb, empty_model, lemma_absorb_fits,
    lemma_entry_at_most_sum, settled_or_zero,
};
use crate::event::{EnrichedPaymentEvent, PaymentStatus};

verus! {

/// Maintains real-time counts and settled totals over the event stream.
pub struct Aggregator {
    state: AggregatesSnapshot,
}

impl View for Aggregator {
    type V = AggregatesModel;

    closed spec fn view(&self) -> AggregatesModel {
        self.state@
    }
}

impl Aggregator {
    #[verifier::type_invariant]
    spec fn inv(&self) -> bool {
        self.state.wf()
    }

    /// An aggregator that has seen no event.
    pub fn new() -> (a: Aggregator)
        ensures
            a@ == empty_model(),
    {
        Aggregator { state: AggregatesSnapshot::default() }
    }

    /// Folds one enriched event into the aggregates (see [`absorb`]). The new total, the event's
    /// counts and its currency's settled total must fit their integer types.
    pub fn update(&mut self, enriched: &EnrichedPaymentEvent)
        requires
            can_absorb(old(self)@, *enriched),
        ensures
            final(self)@ == absorb(old(self)@, *enriched),
    {
        proof {
            use_type_invariant(&*self);
        }
        let ghost m = self@;
        let event = &enriched.event;
        let si = event.status.index();
        let di = event.direction.index();
        let ci = event.amount.currency.index();
        proof {
            lemma_entry_at_most_sum(m.by_status, si as int);
            lemma_entry_at_most_sum(m.by_direction, di as int);
        }
        let mut by_status = self.state.by_status.clone();
        assert(by_status@ =~= self.state.by_status@);
        let old_status = by_status[si];
        by_status.set(si, old_status + 1);
        let mut by_direction = self.state.by_direction.clone();
        assert(by_direction@ =~= self.state.by_direction@);
        let old_direction = by_direction[di];
        by_direction.set(di, old_direction + 1);
        let mut settled = self.state.settled_minor_by_currency.clone();
        assert(settled@ =~= self.state.settled_minor_by_currency@);
        if event.status == PaymentStatus::Completed {
            let previous: i64 = match settled[ci] {
                Some(v) => v,
                None => 0,
            };
            settled.set(ci, Some(previous + event.amount.minor_units));
        }
        let max_risk_score = if enriched.risk_score > self.state.max_risk_score {
            enriched.risk_score
        } else {
            self.state.max_risk_score
        };
        let next = AggregatesSnapshot {
            total_processed: self.state.total_processed + 1,
            by_status,
            by_direction,
            settled_minor_by_currency: settled,
            max_risk_score,
        };
        proof {
            let a = absorb(m, *enriched);
            assert(next@.by_status =~= a.by_status);
            assert(next@.by_direction =~= a.by_direction);
            assert(next@.settled =~= a.settled);
            lemma_absorb_fits(m, *enriched);
        }
        self.state = next;
    }

    /// Whether folding `enriched` keeps every value within its integer type (see
    /// [`can_absorb`]), the condition [`Aggregator::update`] needs.
    pub fn can_update(&self, enriched: &EnrichedPaymentEvent) -> (b: bool)
        ensures
            b == can_absorb(self@, *enriched),
    {
        proof {
            use_type_invariant(self);
        }
        if self.state.total_processed == u64::MAX {
            return false;
        }
        if enriched.event.status == PaymentStatus::Completed {
            let ci = enriched.event.amount.currency.index();
            let previous: i64 = match self.state.settled_minor_by_currency[ci] {
                Some(v) => v,
                None => 0,
            };
            previous.checked_add(enriched.event.amount.minor_units).is_some()
        } else {
            true
        }
    }

    /// A consistent point-in-time snapshot.
    pub fn snapshot(&self) -> (s: AggregatesSnapshot)
        ensures
            s@ == self@,
            s.wf(),
    {
        proof {
            use_type_invariant(self);
        }
        let by_status = self.state.by_status.clone();
        let by_direction = self.state.by_direction.clone();
        let settled = self.state.settled_minor_by_currency.clone();
        assert(by_status@ =~= self.state.by_status@);
        assert(by_direction@ =~= self.state.by_direction@);
        assert(settled@ =~= self.state.settled_minor_by_currency@);
        AggregatesSnapshot {
            total_processed: self.state.total_processed,
            by_status,
            by_direction,
            settled_minor_by_currency: settled,
            max_risk_score: self.state.max_risk_score,
        }
    }
}

} // verus!
