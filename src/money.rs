use vstd::prelude::*;
use crate::text::{decimal_digits, digit_char};

verus! {

/// Prices are whole numbers of millionths of a currency unit.
pub const MICROS_PER_UNIT: i64 = 1000000;

/// Millionths of a unit in a hundredth.
pub const MICROS_PER_CENT: i64 = 10000;

/// `n / d` rounded to the nearest whole number, halves away from zero.
pub open spec fn round_half_away(n: int, d: int) -> int {
    let a = if n < 0 {
        -n
    } else {
        n
    };
    let q = if 2 * (a % d) >= d {
        a / d + 1
    } else {
        a / d
    };
    if n < 0 {
        -q
    } else {
        q
    }
}

/// A price in millionths, in hundredths of a unit.
pub open spec fn cents_of(micros: int) -> int {
    round_half_away(micros, MICROS_PER_CENT as int)
}

/// A number of hundredths as a plain decimal: a minus sign when negative, the
/// whole part, a point, and two digits.
pub open spec fn two_place_text(cents: int) -> Seq<char> {
    let a = if cents < 0 {
        -cents
    } else {
        cents
    };
    let body = decimal_digits((a / 100) as nat) + seq![
        '.',
        digit_char(((a % 100) / 10) as nat),
        digit_char((a % 10) as nat),
    ];
    if cents < 0 {
        seq!['-'] + body
    } else {
        body
    }
}

/// The text that rusty_money gives for `cents / 100` in the ISO currency
/// whose code is `code`, or none where no ISO currency has that code.
pub uninterp spec fn iso_money_text(cents: int, code: Seq<char>) -> Option<Seq<char>>;

/// The text of an amount in hundredths: in the currency's own style where
/// `code` is an ISO currency code, else the plain two-decimal number.
pub open spec fn cents_text(cents: int, code: Seq<char>) -> Seq<char> {
    match iso_money_text(cents, code) {
        Some(t) => t,
        None => two_place_text(cents),
    }
}

/// The text of a price in millionths: rounded to hundredths, then written as
/// `cents_text` does.
pub open spec fn price_text(micros: int, code: Seq<char>) -> Seq<char> {
    cents_text(cents_of(micros), code)
}

/// Relies on rust_decimal: `Decimal::new(cents, 2)` is `cents / 100` at
/// scale 2, and its `to_string` writes a minus sign when it is negative, the
/// whole part (`0` when there is none), a point, and the two digits of the
/// fraction.
#[verifier::external_body]
fn decimal_text(cents: i64) -> (r: String)
    ensures
        r@ == two_place_text(cents as int),
{
    rust_decimal::Decimal::new(cents, 2).to_string()
}

/// Relies on rusty_money: `iso::find` looks `code` up among the ISO 4217
/// currencies by exact alphabetic code, and `Money::to_string` writes the
/// amount `cents / 100` with that currency's symbol, placement and
/// separators. The text depends on the two arguments alone.
#[verifier::external_body]
fn iso_money(cents: i64, code: &str) -> (r: Option<String>)
    ensures
        match r {
            Some(t) => iso_money_text(cents as int, code@) == Some(t@),
            None => iso_money_text(cents as int, code@) is None,
        },
{
    match rusty_money::iso::find(code) {
        Some(c) => Some(
            rusty_money::Money::from_decimal(rust_decimal::Decimal::new(cents, 2), c).to_string(),
        ),
        None => None,
    }
}

/// A price in millionths rounded to hundredths, halves away from zero.
pub fn price_cents(micros: i64) -> (r: i64)
    ensures
        r == cents_of(micros as int),
{
    let a: u64 = if micros < 0 {
        if micros == i64::MIN {
            9223372036854775808u64
        } else {
            (-micros) as u64
        }
    } else {
        micros as u64
    };
    let d: u64 = MICROS_PER_CENT as u64;
    let q: u64 = if 2 * (a % d) >= d {
        a / d + 1
    } else {
        a / d
    };
    if micros < 0 {
        -(q as i64)
    } else {
        q as i64
    }
}

/// The text of `cents` hundredths: `found`, the currency text when the code
/// was an ISO currency, else the plain two-decimal number.
pub fn money_or_plain(found: Option<String>, cents: i64) -> (r: String)
    ensures
        r@ == match found {
            Some(t) => t@,
            None => two_place_text(cents as int),
        },
{
    match found {
        Some(t) => t,
        None => decimal_text(cents),
    }
}

/// The display text of `cents` hundredths of a unit of the currency `code`:
/// in the currency's style, or as a plain number where `code` is no ISO
/// currency.
pub fn format_cents(cents: i64, code: &str) -> (r: String)
    ensures
        r@ == cents_text(cents as int, code@),
{
    money_or_plain(iso_money(cents, code), cents)
}

/// The display text of a price in millionths of a unit of the currency
/// `code`: rounded to hundredths, halves away from zero, then written in the
/// currency's style, or as a plain number where `code` is no ISO currency.
pub fn format_price(micros: i64, code: &str) -> (r: String)
    ensures
        r@ == price_text(micros as int, code@),
{
    format_cents(price_cents(micros), code)
}

} // verus!
