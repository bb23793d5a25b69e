//! Payment lifecycle events consumed from the input stream and their enriched form.

use vstd::prelude::*;
use crate::money::Money;

verus! {

/// Direction of money movement relative to the platform ledger.
#[derive(Debug, Clone, Copy, PartialEq, Eq, Hash, PartialOrd, Ord, Structural)]
pub enum Direction {
    PayIn,
    PayOut,
}

/// Terminal or in-flight lifecycle state of a payment.
#[derive(Debug, Clone, Copy, PartialEq, Eq, Hash, PartialOrd, Ord, Structural)]
pub enum PaymentStatus {
    Initiated,
    ComplianceApproved,
    FundsReserved,
    RailSettled,
    LedgerPosted,
    Completed,
    Failed,
    Rejected,
}

/// Position of a direction in declaration order (the order in which directions sort).
pub open spec fn direction_index(d: Direction) -> int {
    match d {
        Direction::PayIn => 0,
        Direction::PayOut => 1,
    }
}

/// Position of a status in declaration order (the order in which statuses sort).
pub open spec fn status_index(s: PaymentStatus) -> int {
    match s {
        PaymentStatus::Initiated => 0,
        PaymentStatus::ComplianceApproved => 1,
        PaymentStatus::FundsReserved => 2,
        PaymentStatus::RailSettled => 3,
        PaymentStatus::LedgerPosted => 4,
        PaymentStatus::Completed => 5,
        PaymentStatus::Failed => 6,
        PaymentStatus::Rejected => 7,
    }
}

/// The variant name of a status, as its debug form prints it.
pub open spec fn status_name(s: PaymentStatus) -> Seq<char> {
    match s {
        PaymentStatus::Initiated => "Initiated"@,
        PaymentStatus::ComplianceApproved => "ComplianceApproved"@,
        PaymentStatus::FundsReserved => "FundsReserved"@,
        PaymentStatus::RailSettled => "RailSettled"@,
        PaymentStatus::LedgerPosted => "LedgerPosted"@,
        PaymentStatus::Completed => "Completed"@,
        PaymentStatus::Failed => "Failed"@,
        PaymentStatus::Rejected => "Rejected"@,
    }
}

/// The variant name of a direction, as its debug form prints it.
pub open spec fn direction_name(d: Direction) -> Seq<char> {
    match d {
        Direction::PayIn => "PayIn"@,
        Direction::PayOut => "PayOut"@,
    }
}

impl Direction {
    /// Position in declaration order.
    pub fn index(self) -> (i: usize)
        ensures
            i == direction_index(self),
    {
        match self {
            Direction::PayIn => 0,
            Direction::PayOut => 1,
        }
    }

    /// The variant name, e.g. `"PayIn"`.
    pub fn name(self) -> (s: String)
        ensures
            s@ == direction_name(self),
    {
        match self {
            Direction::PayIn => String::from_str("PayIn"),
            Direction::PayOut => String::from_str("PayOut"),
        }
    }
}

impl PaymentStatus {
    /// Whether the payment has reached the end of its lifecycle.
    pub fn is_terminal(self) -> (b: bool)
        ensures
            b == (self == PaymentStatus::Completed || self == PaymentStatus::Failed || self
                == PaymentStatus::Rejected),
    {
        match self {
            PaymentStatus::Completed | PaymentStatus::Failed | PaymentStatus::Rejected => true,
            _ => false,
        }
    }

    /// Position in declaration order.
    pub fn index(self) -> (i: usize)
        ensures
            i == status_index(self),
    {
        match self {
            PaymentStatus::Initiated => 0,
            PaymentStatus::ComplianceApproved => 1,
            PaymentStatus::FundsReserved => 2,
            PaymentStatus::RailSettled => 3,
            PaymentStatus::LedgerPosted => 4,
            PaymentStatus::Completed => 5,
            PaymentStatus::Failed => 6,
            PaymentStatus::Rejected => 7,
        }
    }

    /// The variant name, e.g. `"ComplianceApproved"`.
    pub fn name(self) -> (s: String)
        ensures
            s@ == status_name(self),
    {
        let n = match self {
            PaymentStatus::Initiated => "Initiated",
            PaymentStatus::ComplianceApproved => "ComplianceApproved",
            PaymentStatus::FundsReserved => "FundsReserved",
            PaymentStatus::RailSettled => "RailSettled",
            PaymentStatus::LedgerPosted => "LedgerPosted",
            PaymentStatus::Completed => "Completed",
            PaymentStatus::Failed => "Failed",
            PaymentStatus::Rejected => "Rejected",
        };
        String::from_str(n)
    }
}

/// Earliest second (since the Unix epoch, UTC) of the calendar range an instant may lie in:
/// January 1 of year -262143.
pub const MIN_TIMESTAMP_SECS: i64 = -8_334_601_228_800;

/// Last second (since the Unix epoch, UTC) of the calendar range an instant may lie in:
/// December 31 of year 262142, 23:59:59.
pub const MAX_TIMESTAMP_SECS: i64 = 8_210_266_876_799;

/// An instant in UTC: whole seconds since the Unix epoch and the nanoseconds past that second.
#[derive(Debug, Clone, Copy, PartialEq, Eq, Structural)]
pub struct Timestamp {
    pub secs: i64,
    pub nanos: u32,
}

impl Timestamp {
    /// Within the representable calendar range, with a sub-second part below one second.
    pub open spec fn is_valid(self) -> bool {
        &&& MIN_TIMESTAMP_SECS <= self.secs <= MAX_TIMESTAMP_SECS
        &&& self.nanos < 1_000_000_000
    }

    /// Nanoseconds since the Unix epoch.
    pub open spec fn total_nanos(self) -> int {
        self.secs * 1_000_000_000 + self.nanos
    }

    /// The instant `secs` seconds and `nanos` nanoseconds after the Unix epoch.
    pub fn new(secs: i64, nanos: u32) -> (t: Timestamp)
        ensures
            t.secs == secs,
            t.nanos == nanos,
    {
        Timestamp { secs, nanos }
    }
}

/// A payment lifecycle event as published on the input topic.
#[derive(Debug, Clone, PartialEq, Eq)]
pub struct PaymentEvent {
    /// The payment's UUID, as its 128-bit value.
    pub payment_id: u128,
    pub direction: Direction,
    pub account: String,
    pub amount: Money,
    pub status: PaymentStatus,
    pub occurred_at: Timestamp,
}

/// A [`PaymentEvent`] enriched with a risk score and ingest latency, ready to be published.
#[derive(Debug, Clone, PartialEq, Eq)]
pub struct EnrichedPaymentEvent {
    pub event: PaymentEvent,
    pub risk_score: u8,
    pub ingest_latency_ms: i64,
    pub processed_at: Timestamp,
}


/// Each status and direction is named by its own variant, and positions follow declaration order.
pub proof fn lemma_names_and_positions()
    ensures
        status_name(PaymentStatus::Initiated) == "Initiated"@,
        status_name(PaymentStatus::ComplianceApproved) == "ComplianceApproved"@,
        status_name(PaymentStatus::FundsReserved) == "FundsReserved"@,
        status_name(PaymentStatus::RailSettled) == "RailSettled"@,
        status_name(PaymentStatus::LedgerPosted) == "LedgerPosted"@,
        status_name(PaymentStatus::Completed) == "Completed"@,
        status_name(PaymentStatus::Failed) == "Failed"@,
        status_name(PaymentStatus::Rejected) == "Rejected"@,
        direction_name(Direction::PayIn) == "PayIn"@,
        direction_name(Direction::PayOut) == "PayOut"@,
        forall|a: PaymentStatus, b: PaymentStatus|
            #![trigger status_index(a), status_index(b)]
            status_index(a) == status_index(b) ==> a == b,
        forall|a: PaymentStatus| #![trigger status_index(a)] 0 <= status_index(a) < 8,
        forall|a: Direction, b: Direction|
            #![trigger direction_index(a), direction_index(b)]
            direction_index(a) == direction_index(b) ==> a == b,
        forall|a: Direction| #![trigger direction_index(a)] 0 <= direction_index(a) < 2,
{
}

} // verus!
