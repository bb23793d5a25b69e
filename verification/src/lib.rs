//! PayStream: a payment event stream processor. Money, payment events, enrichment, real-time
//! aggregation, resilience state machines (circuit breaker, retry) and configuration parsing,
//! each with a machine-checked contract.

pub mod aggregates;
pub mod aggregator;
pub mod circuit_breaker;
pub mod config;
pub mod enricher;
pub mod error;
pub mod event;
pub mod fetch;
pub mod money;
pub mod pipeline;
pub mod retry;
pub mod schema;
pub mod text;
pub mod timeout;

pub use aggregates::AggregatesSnapshot;
pub use aggregator::Aggregator;
pub use circuit_breaker::{CircuitBreaker, CircuitBreakerError, State};
pub use enricher::{enrich, risk_score};
pub use error::{PayStreamError, Result};
pub use event::{Direction, EnrichedPaymentEvent, PaymentEvent, PaymentStatus, Timestamp};
pub use money::{Currency, CurrencyMismatch, Money};
pub use retry::{RetryDecision, RetryState};
pub use timeout::TimeoutError;
