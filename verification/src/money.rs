//! Money as an exact, currency-tagged count of minor units. Floating point is never used on the
//! money path.

use vstd::prelude::*;
use vstd::string::*;
use crate::text::{nat_text, zero_padded, push_char, push_nat_text, push_zero_padded};

verus! {

/// Supported settlement currencies with their minor-unit scale (decimal places).
#[derive(Debug, Clone, Copy, PartialEq, Eq, Hash, PartialOrd, Ord, Structural)]
pub enum Currency {
    USD,
    EUR,
    MXN,
    BRL,
    ARS,
    BTC,
    ETH,
    USDC,
}

/// Number of decimal places of a currency's minor unit.
pub open spec fn scale_of(c: Currency) -> nat {
    match c {
        Currency::USD | Currency::EUR | Currency::MXN | Currency::BRL | Currency::ARS => 2,
        Currency::BTC | Currency::ETH => 8,
        Currency::USDC => 6,
    }
}

/// The currency's code, as it is printed.
pub open spec fn currency_code(c: Currency) -> Seq<char> {
    match c {
        Currency::USD => "USD"@,
        Currency::EUR => "EUR"@,
        Currency::MXN => "MXN"@,
        Currency::BRL => "BRL"@,
        Currency::ARS => "ARS"@,
        Currency::BTC => "BTC"@,
        Currency::ETH => "ETH"@,
        Currency::USDC => "USDC"@,
    }
}

/// `10` to the power `n`.
pub open spec fn pow10(n: nat) -> nat
    decreases n,
{
    if n == 0 {
        1
    } else {
        10 * pow10((n - 1) as nat)
    }
}

/// Magnitude of an integer.
pub open spec fn abs(a: int) -> int {
    if a < 0 {
        -a
    } else {
        a
    }
}

/// The printed form of an amount: a `-` for a negative amount, the magnitude's whole part in
/// major units, a `.`, the magnitude's remaining minor units zero-padded to the currency's scale,
/// a space and the code. The text denotes exactly `minor_units / 10^scale`.
pub open spec fn money_text(m: Money) -> Seq<char> {
    let d = pow10(scale_of(m.currency));
    let magnitude = abs(m.minor_units as int) as nat;
    (if m.minor_units < 0 {
        seq!['-']
    } else {
        Seq::<char>::empty()
    }) + nat_text(magnitude / d) + seq!['.'] + zero_padded(magnitude % d, scale_of(m.currency))
        + seq![' '] + currency_code(m.currency)
}

/// Position of a currency in declaration order (the order in which currencies sort).
pub open spec fn currency_index(c: Currency) -> int {
    match c {
        Currency::USD => 0,
        Currency::EUR => 1,
        Currency::MXN => 2,
        Currency::BRL => 3,
        Currency::ARS => 4,
        Currency::BTC => 5,
        Currency::ETH => 6,
        Currency::USDC => 7,
    }
}

impl Currency {
    /// Position in declaration order.
    pub fn index(self) -> (i: usize)
        ensures
            i == currency_index(self),
    {
        match self {
            Currency::USD => 0,
            Currency::EUR => 1,
            Currency::MXN => 2,
            Currency::BRL => 3,
            Currency::ARS => 4,
            Currency::BTC => 5,
            Currency::ETH => 6,
            Currency::USDC => 7,
        }
    }

    /// The currency code, e.g. `"USD"`.
    pub fn to_string(&self) -> (s: String)
        ensures
            s@ == currency_code(*self),
    {
        let code = match self {
            Currency::USD => "USD",
            Currency::EUR => "EUR",
            Currency::MXN => "MXN",
            Currency::BRL => "BRL",
            Currency::ARS => "ARS",
            Currency::BTC => "BTC",
            Currency::ETH => "ETH",
            Currency::USDC => "USDC",
        };
        String::from_str(code)
    }

    /// Number of decimal places, e.g. `2` for USD (cents), `8` for BTC (sats).
    pub fn minor_unit_scale(self) -> (scale: u32)
        ensures
            scale == scale_of(self),
    {
        match self {
            Currency::USD | Currency::EUR | Currency::MXN | Currency::BRL | Currency::ARS => 2,
            Currency::BTC | Currency::ETH => 8,
            Currency::USDC => 6,
        }
    }
}

/// Powers of ten grow with the exponent.
proof fn lemma_pow10_monotone(a: nat, b: nat)
    requires
        a <= b,
    ensures
        pow10(a) <= pow10(b),
    decreases b,
{
    if a < b {
        lemma_pow10_monotone(a, (b - 1) as nat);
    }
}

/// Raised when two [`Money`] values of different currencies are combined.
#[derive(Debug, Clone, Copy, PartialEq, Eq, Structural)]
pub struct CurrencyMismatch {
    pub expected: Currency,
    pub actual: Currency,
}

/// An immutable, currency-safe monetary amount stored as a signed count of minor units.
#[derive(Debug, Clone, Copy, PartialEq, Eq, Structural)]
pub struct Money {
    pub currency: Currency,
    pub minor_units: i64,
}

/// Whether adding `b` to `a` is defined without overflowing `i64` (or is a currency mismatch,
/// which never overflows).
pub open spec fn addition_fits(a: Money, b: Money) -> bool {
    a.currency == b.currency ==> i64::MIN <= a.minor_units + b.minor_units <= i64::MAX
}

/// The result that `checked_add` gives.
pub open spec fn sum_result(a: Money, b: Money) -> Result<Money, CurrencyMismatch> {
    if a.currency != b.currency {
        Err(CurrencyMismatch { expected: a.currency, actual: b.currency })
    } else {
        Ok(Money { currency: a.currency, minor_units: (a.minor_units + b.minor_units) as i64 })
    }
}

impl Money {
    /// The amount of `minor_units` in `currency`.
    pub fn new(currency: Currency, minor_units: i64) -> (m: Money)
        ensures
            m.currency == currency,
            m.minor_units == minor_units,
    {
        Money { currency, minor_units }
    }

    /// Nothing, in `currency`.
    pub fn zero(currency: Currency) -> (m: Money)
        ensures
            m.currency == currency,
            m.minor_units == 0,
    {
        Money { currency, minor_units: 0 }
    }

    /// Adds two amounts of the same currency exactly; a currency mismatch is an error naming the
    /// expected (`self`) and actual (`other`) currencies. The sum must fit in `i64`.
    pub fn checked_add(self, other: Money) -> (r: Result<Money, CurrencyMismatch>)
        requires
            addition_fits(self, other),
        ensures
            r == sum_result(self, other),
    {
        if self.currency != other.currency {
            return Err(CurrencyMismatch { expected: self.currency, actual: other.currency });
        }
        Ok(Money { currency: self.currency, minor_units: self.minor_units + other.minor_units })
    }

    /// Renders the amount in major units with the currency's decimal places, e.g. `12.34 USD`.
    pub fn to_string(&self) -> (s: String)
        ensures
            s@ == money_text(*self),
    {
        let scale = self.currency.minor_unit_scale();
        let mut divisor: u64 = 1;
        let mut k: u32 = 0;
        while k < scale
            invariant
                k <= scale,
                scale == scale_of(self.currency),
                divisor == pow10(k as nat),
                1 <= divisor,
            decreases scale - k,
        {
            proof {
                lemma_pow10_monotone((k + 1) as nat, 8);
                assert(pow10(8) == 100_000_000) by {
                    reveal_with_fuel(pow10, 9);
                }
            }
            divisor = divisor * 10;
            k = k + 1;
        }
        let negative = self.minor_units < 0;
        let magnitude: u64 = if negative {
            (0i128 - self.minor_units as i128) as u64
        } else {
            self.minor_units as u64
        };
        let whole = magnitude / divisor;
        let frac = magnitude % divisor;
        let mut text = String::new();
        if negative {
            push_char(&mut text, '-');
        }
        push_nat_text(&mut text, whole);
        push_char(&mut text, '.');
        push_zero_padded(&mut text, frac, scale);
        push_char(&mut text, ' ');
        let code = self.currency.to_string();
        text.append(code.as_str());
        proof {
            assert(text@ =~= money_text(*self));
        }
        text
    }

    /// Whether the amount is above zero.
    pub fn is_positive(self) -> (b: bool)
        ensures
            b == (self.minor_units > 0),
    {
        self.minor_units > 0
    }
}

/// Adding two amounts of one currency does not depend on the order of the operands.
pub proof fn lemma_checked_add_commutative(a: Money, b: Money)
    requires
        a.currency == b.currency,
        addition_fits(a, b),
    ensures
        sum_result(a, b) == sum_result(b, a),
        addition_fits(b, a),
{
}

/// Adding amounts of one currency is associative whenever every partial sum fits in `i64`.
pub proof fn lemma_checked_add_associative(a: Money, b: Money, c: Money)
    requires
        a.currency == b.currency,
        b.currency == c.currency,
        addition_fits(a, b),
        addition_fits(b, c),
        i64::MIN <= a.minor_units + b.minor_units + c.minor_units <= i64::MAX,
    ensures
        addition_fits(sum_result(a, b)->Ok_0, c),
        addition_fits(a, sum_result(b, c)->Ok_0),
        sum_result(sum_result(a, b)->Ok_0, c) == sum_result(a, sum_result(b, c)->Ok_0),
{
}

/// Zero of a currency is the identity of addition in that currency.
pub proof fn lemma_checked_add_zero(a: Money)
    ensures
        addition_fits(a, Money { currency: a.currency, minor_units: 0 }),
        sum_result(a, Money { currency: a.currency, minor_units: 0 }) == Ok::<Money, CurrencyMismatch>(a),
{
}

/// Combining two different currencies is refused in both orders, each error naming the
/// left operand's currency as the expected one.
pub proof fn lemma_mismatch_in_both_orders(a: Money, b: Money)
    requires
        a.currency != b.currency,
    ensures
        sum_result(a, b) == Err::<Money, CurrencyMismatch>(CurrencyMismatch { expected: a.currency, actual: b.currency }),
        sum_result(b, a) == Err::<Money, CurrencyMismatch>(CurrencyMismatch { expected: b.currency, actual: a.currency }),
{
}


/// Each currency's minor-unit scale is its number of decimal places: two for the fiat
/// currencies, eight for BTC and ETH, six for USDC; so an amount's minor units are hundredths,
/// hundred-millionths or millionths of a major unit.
pub proof fn lemma_currency_scales()
    ensures
        scale_of(Currency::USD) == 2,
        scale_of(Currency::EUR) == 2,
        scale_of(Currency::MXN) == 2,
        scale_of(Currency::BRL) == 2,
        scale_of(Currency::ARS) == 2,
        scale_of(Currency::BTC) == 8,
        scale_of(Currency::ETH) == 8,
        scale_of(Currency::USDC) == 6,
        forall|c: Currency|
            #![trigger scale_of(c)]
            (c == Currency::BTC || c == Currency::ETH) ==> pow10(scale_of(c)) == 100_000_000,
        forall|c: Currency|
            #![trigger scale_of(c)]
            c == Currency::USDC ==> pow10(scale_of(c)) == 1_000_000,
        forall|c: Currency|
            #![trigger scale_of(c)]
            (c != Currency::BTC && c != Currency::ETH && c != Currency::USDC) ==> pow10(scale_of(c))
                == 100,
{
    reveal_with_fuel(pow10, 9);
}

/// The printed form of a non-negative amount in a two-decimal currency: the whole hundreds of
/// minor units, a `.`, the last two minor-unit digits, a space and the code.
pub proof fn lemma_two_decimal_text(m: Money)
    requires
        m.minor_units >= 0,
        m.currency == Currency::USD || m.currency == Currency::EUR || m.currency == Currency::MXN
            || m.currency == Currency::BRL || m.currency == Currency::ARS,
    ensures
        money_text(m) == nat_text((m.minor_units / 100) as nat) + seq!['.'] + zero_padded(
            (m.minor_units % 100) as nat,
            2,
        ) + seq![' '] + currency_code(m.currency),
{
    reveal_with_fuel(pow10, 3);
    assert(money_text(m) =~= nat_text((m.minor_units / 100) as nat) + seq!['.'] + zero_padded(
        (m.minor_units % 100) as nat,
        2,
    ) + seq![' '] + currency_code(m.currency));
}


/// Each currency is printed by its own code, and positions follow declaration order.
pub proof fn lemma_codes_and_positions()
    ensures
        currency_code(Currency::USD) == "USD"@,
        currency_code(Currency::EUR) == "EUR"@,
        currency_code(Currency::MXN) == "MXN"@,
        currency_code(Currency::BRL) == "BRL"@,
        currency_code(Currency::ARS) == "ARS"@,
        currency_code(Currency::BTC) == "BTC"@,
        currency_code(Currency::ETH) == "ETH"@,
        currency_code(Currency::USDC) == "USDC"@,
        forall|a: Currency, b: Currency|
            #![trigger currency_index(a), currency_index(b)]
            currency_index(a) == currency_index(b) ==> a == b,
        forall|a: Currency| #![trigger currency_index(a)] 0 <= currency_index(a) < 8,
{
}

} // verus!
