use paystream::event::MIN_TIMESTAMP_SECS;
use paystream::{Currency, Direction, Money, PaymentEvent, PaymentStatus, Timestamp};

#[test]
fn money_display_formats_minor_units() {
    assert_eq!(Money::new(Currency::USD, 1234).to_string(), "12.34 USD");
    assert_eq!(Money::new(Currency::BTC, 1).to_string(), "0.00000001 BTC");
}

#[test]
fn money_add_same_currency_is_exact() {
    let a = Money::new(Currency::MXN, 100);
    let b = Money::new(Currency::MXN, 250);
    assert_eq!(a.checked_add(b).unwrap(), Money::new(Currency::MXN, 350));
}

#[test]
fn money_add_mismatch_is_rejected() {
    let a = Money::new(Currency::USD, 100);
    let b = Money::new(Currency::EUR, 100);
    let err = a.checked_add(b).unwrap_err();
    assert_eq!(err.expected, Currency::USD);
    assert_eq!(err.actual, Currency::EUR);
}

#[test]
fn currency_scales_are_correct() {
    assert_eq!(Currency::USD.minor_unit_scale(), 2);
    assert_eq!(Currency::BTC.minor_unit_scale(), 8);
    assert_eq!(Currency::USDC.minor_unit_scale(), 6);
}

#[test]
fn payment_status_terminality() {
    assert!(PaymentStatus::Completed.is_terminal());
    assert!(PaymentStatus::Rejected.is_terminal());
    assert!(!PaymentStatus::Initiated.is_terminal());
}

#[test]
fn money_display_of_negative_amounts_keeps_the_sign() {
    assert_eq!(Money::new(Currency::USD, -1234).to_string(), "-12.34 USD");
    // The sign is kept when the amount is less than one major unit.
    assert_eq!(Money::new(Currency::EUR, -5).to_string(), "-0.05 EUR");
    assert_eq!(Money::new(Currency::USD, -100).to_string(), "-1.00 USD");
    assert_eq!(Money::new(Currency::USDC, 1_500_000).to_string(), "1.500000 USDC");
    assert_eq!(Money::zero(Currency::ARS).to_string(), "0.00 ARS");
    assert_eq!(
        Money::new(Currency::ETH, i64::MIN).to_string(),
        "-92233720368.54775808 ETH"
    );
}

#[test]
fn money_addition_commutes_and_has_zero() {
    let a = Money::new(Currency::BRL, -700);
    let b = Money::new(Currency::BRL, 1_000);
    assert_eq!(a.checked_add(b).unwrap(), b.checked_add(a).unwrap());
    assert_eq!(a.checked_add(Money::zero(Currency::BRL)).unwrap(), a);
    let err = b.checked_add(Money::new(Currency::USD, 1)).unwrap_err();
    let rev = Money::new(Currency::USD, 1).checked_add(b).unwrap_err();
    assert_eq!((err.expected, err.actual), (Currency::BRL, Currency::USD));
    assert_eq!((rev.expected, rev.actual), (Currency::USD, Currency::BRL));
}

#[test]
fn money_is_positive_only_above_zero() {
    assert!(Money::new(Currency::USD, 1).is_positive());
    assert!(!Money::zero(Currency::USD).is_positive());
    assert!(!Money::new(Currency::USD, -1).is_positive());
}

#[test]
fn currency_codes_and_names() {
    assert_eq!(Currency::USDC.to_string(), "USDC");
    assert_eq!(Currency::MXN.to_string(), "MXN");
    assert_eq!(PaymentStatus::ComplianceApproved.name(), "ComplianceApproved");
    assert_eq!(Direction::PayOut.name(), "PayOut");
    assert_eq!(PaymentStatus::Rejected.index(), 7);
    assert_eq!(Currency::ETH.index(), 6);
}

#[test]
fn payment_event_carries_its_fields() {
    let event = PaymentEvent {
        payment_id: 0,
        direction: Direction::PayIn,
        account: "acct-1".to_string(),
        amount: Money::new(Currency::MXN, 100_00),
        status: PaymentStatus::Completed,
        occurred_at: Timestamp::new(MIN_TIMESTAMP_SECS, 0),
    };
    let copy = event.clone();
    assert_eq!(event, copy);
    assert!(!PaymentStatus::LedgerPosted.is_terminal());
    assert!(PaymentStatus::Failed.is_terminal());
}
