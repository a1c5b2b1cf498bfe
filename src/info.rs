use vstd::prelude::*;
use crate::error::ChartError;
use crate::fixed::Fixed;
use crate::labels::{axis_labels, axis_spec, texts};
use crate::money::{cents_text, format_cents};
use crate::scale::{scale_prices, scaled_spec, ScaledPoint};
use crate::ticks::{day_range_ticks, range_ticks};

verus! {

/// What `str::to_uppercase` gives for a text.
pub uninterp spec fn upper_of(s: Seq<char>) -> Seq<char>;

/// Relies on `str::to_uppercase`: the result is the upper-case mapping of
/// each character in turn, so it depends on the characters alone.
#[verifier::external_body]
fn uppercase(s: &str) -> (r: String)
    ensures
        r@ == upper_of(s@),
{
    s.to_uppercase()
}

/// The headline facts about a symbol.
#[derive(Clone, Debug)]
pub struct MainInfo {
    /// The last price as display text.
    pub last_quote: String,
    pub name: String,
    pub instrument_type: String,
    /// The currency code, upper case.
    pub currency: String,
    /// The times of the day's quotes, in order.
    pub timestamps: Vec<i64>,
    /// Whether the symbol carries the mark of a company in bankruptcy.
    pub bankruptcy: bool,
}

/// The day's figures for a symbol.
#[derive(Clone, Debug)]
pub struct ExtendedInfo {
    pub exchange_name: String,
    /// The day's range, as `"<low> - <high>"`.
    pub day_range: String,
    /// The change since the last close, with its sign.
    pub market_change: String,
    /// The change in percent, with its sign and `%`.
    pub market_change_percent: String,
}

/// Statistics about a symbol, each as display text.
#[derive(Clone, Debug)]
pub struct StatsInfo {
    pub open: String,
    pub high: String,
    pub low: String,
    pub volume: String,
    pub pe_ratio: String,
    pub market_cap: String,
    pub dividend_yield: String,
    pub beta: String,
    pub eps: String,
}

pub open spec fn starts_with_minus(s: Seq<char>) -> bool {
    s.len() > 0 && s[0] == '-'
}

/// A signed number text: as it is when it starts with `-`, else with `+` in
/// front.
pub open spec fn signed_text(s: Seq<char>) -> Seq<char> {
    if starts_with_minus(s) {
        s
    } else {
        seq!['+'] + s
    }
}

/// A five-character symbol that ends in `Q` marks a company in bankruptcy.
pub open spec fn bankrupt_symbol(symbol: &str) -> bool {
    symbol@.len() > 0 && symbol@.last() == 'Q' && symbol.len() == 5
}

fn text_starts_with_minus(s: &str) -> (r: bool)
    ensures
        r == starts_with_minus(s@),
{
    s.unicode_len() > 0 && s.get_char(0) == '-'
}

/// `s` with `+` in front unless it starts with `-`.
pub fn with_sign(s: String) -> (r: String)
    ensures
        r@ == signed_text(s@),
{
    if text_starts_with_minus(s.as_str()) {
        s
    } else {
        proof {
            reveal_strlit("+");
        }
        String::from_str("+").concat(s.as_str())
    }
}

/// Whether `symbol` carries the mark of a company in bankruptcy: five bytes
/// long and ending in `Q`.
pub fn is_bankrupt_symbol(symbol: &str) -> (r: bool)
    ensures
        r == bankrupt_symbol(symbol),
{
    let n = symbol.unicode_len();
    n > 0 && symbol.get_char(n - 1) == 'Q' && symbol.len() == 5
}

/// The text of one statistic: its formatted value in upper case, or `N/A`
/// when there is none.
pub fn stat_text(formatted: Option<&str>) -> (r: String)
    ensures
        r@ == match formatted {
            Some(s) => upper_of(s@),
            None => "N/A"@,
        },
{
    match formatted {
        Some(s) => uppercase(s),
        None => String::from_str("N/A"),
    }
}

impl MainInfo {
    /// The headline facts about `symbol`, from its last closing price in
    /// hundredths, its long and short names, its kind, its currency code and
    /// the times of its quotes. The long name is used unless it is empty.
    pub fn new(
        symbol: &str,
        last_cents: i64,
        long_name: String,
        short_name: String,
        instrument_type: String,
        currency: &str,
        timestamps: Vec<i64>,
    ) -> (r: MainInfo)
        ensures
            r.currency@ == upper_of(currency@),
            r.last_quote@ == cents_text(last_cents as int, upper_of(currency@)),
            r.name@ == (if long_name@.len() == 0 {
                short_name@
            } else {
                long_name@
            }),
            r.instrument_type == instrument_type,
            r.timestamps == timestamps,
            r.bankruptcy == bankrupt_symbol(symbol),
    {
        let currency = uppercase(currency);
        let last_quote = format_cents(last_cents, currency.as_str());
        let name = if long_name.as_str().unicode_len() == 0 {
            short_name
        } else {
            long_name
        };
        MainInfo {
            last_quote,
            name,
            instrument_type,
            currency,
            timestamps,
            bankruptcy: is_bankrupt_symbol(symbol),
        }
    }
}

impl ExtendedInfo {
    /// The day's figures, from the exchange's name, the day-range text and
    /// the change and percent change as two-decimal texts; the changes get
    /// their sign, and the percent its `%`.
    pub fn new(exchange_name: String, day_range: String, change: String, change_percent: String) -> (r:
        ExtendedInfo)
        ensures
            r.exchange_name == exchange_name,
            r.day_range == day_range,
            r.market_change@ == signed_text(change@),
            r.market_change_percent@ == signed_text(change_percent@ + seq!['%']),
    {
        proof {
            reveal_strlit("%");
        }
        let percent = change_percent.concat("%");
        ExtendedInfo {
            exchange_name,
            day_range,
            market_change: with_sign(change),
            market_change_percent: with_sign(percent),
        }
    }

    /// Whether the price went down.
    pub fn market_change_neg(&self) -> (r: bool)
        ensures
            r == starts_with_minus(self.market_change@),
    {
        text_starts_with_minus(self.market_change.as_str())
    }
}

impl StatsInfo {
    /// Statistics that could not be had: `???` in each place.
    pub fn unavailable() -> (r: StatsInfo)
        ensures
            r.open@ == "???"@ && r.high@ == "???"@ && r.low@ == "???"@ && r.volume@ == "???"@
                && r.pe_ratio@ == "???"@ && r.market_cap@ == "???"@ && r.dividend_yield@
                == "???"@ && r.beta@ == "???"@ && r.eps@ == "???"@,
    {
        StatsInfo {
            open: String::from_str("???"),
            high: String::from_str("???"),
            low: String::from_str("???"),
            volume: String::from_str("???"),
            pe_ratio: String::from_str("???"),
            market_cap: String::from_str("???"),
            dividend_yield: String::from_str("???"),
            beta: String::from_str("???"),
            eps: String::from_str("???"),
        }
    }
}

/// The time labels of a symbol's chart over the range that `range` names
/// (see `axis_spec`).
pub fn stox_get_chart_x_axis(main_info: &MainInfo, range: &str) -> (r: Result<
    Vec<String>,
    ChartError,
>)
    ensures
        match r {
            Ok(v) => axis_spec(main_info.timestamps@, range@) == Ok::<
                Seq<Seq<char>>,
                ChartError,
            >(texts(v@)),
            Err(e) => axis_spec(main_info.timestamps@, range@) == Err::<
                Seq<Seq<char>>,
                ChartError,
            >(e),
        },
{
    axis_labels(&main_info.timestamps, range)
}

/// The five price ticks of a symbol's chart, from its day range (see
/// `range_ticks`).
pub fn stox_get_chart_y_axis(extended_info: &ExtendedInfo) -> (r: Result<Vec<Fixed>, ChartError>)
    ensures
        match r {
            Ok(v) => range_ticks(extended_info.day_range@) == Ok::<Seq<Fixed>, ChartError>(v@),
            Err(e) => range_ticks(extended_info.day_range@) == Err::<Seq<Fixed>, ChartError>(e),
        },
{
    day_range_ticks(extended_info.day_range.as_str())
}

/// Closing prices as heights on a chart `height` pixels tall (see
/// `scaled_spec`).
pub fn stox_scale_quotes(quotes: &Vec<i64>, height: i32) -> (r: Vec<ScaledPoint>)
    requires
        quotes@.len() > 0,
    ensures
        r@ == scaled_spec(quotes@, height as int),
{
    scale_prices(quotes, height)
}

} // verus!
