use vstd::prelude::*;
use crate::error::ChartError;
use crate::fixed::Fixed;
use crate::labels::{axis_labels, axis_spec, bucket_spec, lemma_dedup_adjacent, texts};
use crate::scale::{scale_prices, scaled_spec, ScaledPoint};
use crate::ticks::{day_range_ticks, range_ticks};

verus! {

/// One price of a series: when, and the closing price in millionths of a
/// currency unit.
#[derive(Clone, Copy, Debug, PartialEq, Eq, Structural)]
pub struct Quote {
    /// Seconds since the Unix epoch.
    pub timestamp: i64,
    pub close: i64,
}

/// What a chart needs to be drawn.
#[derive(Clone, Debug)]
pub struct ChartBundle {
    /// The time labels, adjacent repeats left out.
    pub x_labels: Vec<String>,
    /// Five price ticks from the day's low to its high.
    pub y_ticks: Vec<Fixed>,
    /// The height of each quote in pixels, in order.
    pub scaled_points: Vec<ScaledPoint>,
}

pub open spec fn timestamps_of(quotes: Seq<Quote>) -> Seq<i64> {
    quotes.map_values(|q: Quote| q.timestamp)
}

pub open spec fn closes_of(quotes: Seq<Quote>) -> Seq<i64> {
    quotes.map_values(|q: Quote| q.close)
}

/// The chart of `quotes` over the range that `code` names, with ticks from
/// the day range text and points scaled to `height` pixels; or the first
/// failure among: no quotes, the labels, the ticks.
pub open spec fn chart_spec(
    quotes: Seq<Quote>,
    code: Seq<char>,
    day_range: Seq<char>,
    height: int,
) -> Result<(Seq<Seq<char>>, Seq<Fixed>, Seq<ScaledPoint>), ChartError> {
    if quotes.len() == 0 {
        Err(ChartError::EmptySeries)
    } else {
        match axis_spec(timestamps_of(quotes), code) {
            Err(e) => Err(e),
            Ok(labels) => match range_ticks(day_range) {
                Err(e) => Err(e),
                Ok(ticks) => Ok((labels, ticks, scaled_spec(closes_of(quotes), height))),
            },
        }
    }
}

impl ChartBundle {
    pub open spec fn parts(self) -> (Seq<Seq<char>>, Seq<Fixed>, Seq<ScaledPoint>) {
        (texts(self.x_labels@), self.y_ticks@, self.scaled_points@)
    }
}

#[verifier::rlimit(60)]
/// Builds the whole chart at once (see `chart_spec`): no part of it is given
/// when any step fails.
pub fn build_chart(quotes: &Vec<Quote>, code: &str, day_range: &str, height: i32) -> (r: Result<
    ChartBundle,
    ChartError,
>)
    ensures
        quotes@.len() == 0 ==> r == Err::<ChartBundle, ChartError>(ChartError::EmptySeries),
        r matches Ok(b) ==> b.scaled_points@.len() == quotes@.len() && b.y_ticks@.len() == 5
            && 0 < b.x_labels@.len() <= quotes@.len(),
        match r {
            Ok(b) => chart_spec(quotes@, code@, day_range@, height as int) == Ok::<
                (Seq<Seq<char>>, Seq<Fixed>, Seq<ScaledPoint>),
                ChartError,
            >(b.parts()),
            Err(e) => chart_spec(quotes@, code@, day_range@, height as int) == Err::<
                (Seq<Seq<char>>, Seq<Fixed>, Seq<ScaledPoint>),
                ChartError,
            >(e),
        },
{
    if quotes.len() == 0 {
        return Err(ChartError::EmptySeries);
    }
    let mut timestamps: Vec<i64> = Vec::new();
    let mut closes: Vec<i64> = Vec::new();
    let mut i: usize = 0;
    while i < quotes.len()
        invariant
            i <= quotes@.len(),
            timestamps@ == timestamps_of(quotes@).subrange(0, i as int),
            closes@ == closes_of(quotes@).subrange(0, i as int),
        decreases quotes@.len() - i,
    {
        timestamps.push(quotes[i].timestamp);
        closes.push(quotes[i].close);
        i += 1;
        assert(timestamps@ =~= timestamps_of(quotes@).subrange(0, i as int));
        assert(closes@ =~= closes_of(quotes@).subrange(0, i as int));
    }
    assert(timestamps@ =~= timestamps_of(quotes@));
    assert(closes@ =~= closes_of(quotes@));
    let x_labels = match axis_labels(&timestamps, code) {
        Ok(v) => {
            proof {
                if let Ok(l) = bucket_spec(timestamps@, code@) {
                    lemma_dedup_adjacent(l);
                }
            }
            v
        },
        Err(e) => {
            return Err(e);
        },
    };
    let y_ticks = match day_range_ticks(day_range) {
        Ok(v) => v,
        Err(e) => {
            return Err(e);
        },
    };
    let scaled_points = scale_prices(&closes, height);
    Ok(ChartBundle { x_labels, y_ticks, scaled_points })
}

} // verus!
