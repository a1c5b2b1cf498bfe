use vstd::prelude::*;

verus! {

/// The pixels left free below a chart's lowest point.
pub const MARGIN: i32 = 5;

/// A height in pixels, `numerator / denominator`.
#[derive(Clone, Copy, Debug, PartialEq, Eq, Structural)]
pub struct ScaledPoint {
    pub numerator: u128,
    pub denominator: u128,
}

/// The least element of a non-empty sequence.
pub open spec fn seq_min(s: Seq<i64>) -> int
    decreases s.len(),
{
    if s.len() <= 1 {
        s[0] as int
    } else if (s.last() as int) < seq_min(s.drop_last()) {
        s.last() as int
    } else {
        seq_min(s.drop_last())
    }
}

/// The greatest element of a non-empty sequence.
pub open spec fn seq_max(s: Seq<i64>) -> int
    decreases s.len(),
{
    if s.len() <= 1 {
        s[0] as int
    } else if (s.last() as int) > seq_max(s.drop_last()) {
        s.last() as int
    } else {
        seq_max(s.drop_last())
    }
}

pub open spec fn abs(x: int) -> int {
    if x < 0 {
        -x
    } else {
        x
    }
}

/// The height of `price` on a chart `height` pixels tall whose prices run
/// from `lo` to `hi`: `(price - lo) / (hi - lo) * (height - MARGIN)`, with its
/// sign turned round where it comes out negative; zero where `hi == lo`.
pub open spec fn scaled_point(price: int, lo: int, hi: int, height: int) -> ScaledPoint {
    if hi == lo {
        ScaledPoint { numerator: 0, denominator: 1 }
    } else {
        ScaledPoint {
            numerator: abs((price - lo) * (height - MARGIN)) as u128,
            denominator: (hi - lo) as u128,
        }
    }
}

pub open spec fn scaled_spec(prices: Seq<i64>, height: int) -> Seq<ScaledPoint> {
    Seq::new(
        prices.len(),
        |i: int| scaled_point(prices[i] as int, seq_min(prices), seq_max(prices), height),
    )
}

proof fn lemma_min_max(s: Seq<i64>)
    requires
        s.len() > 0,
    ensures
        forall|i: int| 0 <= i < s.len() ==> seq_min(s) <= #[trigger] s[i] <= seq_max(s),
    decreases s.len(),
{
    if s.len() > 1 {
        lemma_min_max(s.drop_last());
        assert forall|i: int| 0 <= i < s.len() implies seq_min(s) <= #[trigger] s[i] <= seq_max(
            s,
        ) by {
            if i < s.len() - 1 {
                assert(s[i] == s.drop_last()[i]);
            }
        }
    }
}

/// The prices of a series as heights in pixels on a chart `height` pixels
/// tall (see `scaled_point`). Each lies between `0` and `|height - MARGIN|`.
pub fn scale_prices(prices: &Vec<i64>, height: i32) -> (r: Vec<ScaledPoint>)
    requires
        prices@.len() > 0,
    ensures
        r@ == scaled_spec(prices@, height as int),
        forall|i: int|
            0 <= i < r@.len() ==> #[trigger] r@[i].denominator > 0 && r@[i].numerator <= abs(
                height - MARGIN,
            ) * r@[i].denominator,
{
    let mut lo: i64 = prices[0];
    let mut hi: i64 = prices[0];
    let mut i: usize = 1;
    while i < prices.len()
        invariant
            1 <= i <= prices@.len(),
            lo == seq_min(prices@.subrange(0, i as int)),
            hi == seq_max(prices@.subrange(0, i as int)),
        decreases prices@.len() - i,
    {
        assert(prices@.subrange(0, i + 1).drop_last() =~= prices@.subrange(0, i as int));
        if prices[i] < lo {
            lo = prices[i];
        }
        if prices[i] > hi {
            hi = prices[i];
        }
        i += 1;
    }
    assert(prices@.subrange(0, i as int) =~= prices@);
    proof {
        lemma_min_max(prices@);
    }
    let ghost want = scaled_spec(prices@, height as int);
    let span: i128 = hi as i128 - lo as i128;
    let factor: i128 = height as i128 - MARGIN as i128;
    let mut out: Vec<ScaledPoint> = Vec::new();
    let mut k: usize = 0;
    while k < prices.len()
        invariant
            k <= prices@.len(),
            lo == seq_min(prices@),
            hi == seq_max(prices@),
            span == hi - lo,
            factor == height - MARGIN,
            forall|j: int| 0 <= j < prices@.len() ==> lo <= #[trigger] prices@[j] <= hi,
            want == scaled_spec(prices@, height as int),
            out@ == want.subrange(0, k as int),
            forall|j: int|
                0 <= j < out@.len() ==> #[trigger] out@[j].denominator > 0 && out@[j].numerator
                    <= abs(height - MARGIN) * out@[j].denominator,
        decreases prices@.len() - k,
    {
        let p = if span == 0 {
            ScaledPoint { numerator: 0, denominator: 1 }
        } else {
            let rise: i128 = prices[k] as i128 - lo as i128;
            proof {
                let x = rise as int;
                let y = factor as int;
                let z = span as int;
                assert(0 <= x <= z <= 0x1_0000_0000_0000_0000 && -0x1_0000_0000 <= y
                    <= 0x1_0000_0000 ==> -0x1_0000_0000_0000_0000_0000_0000 <= x * y
                    <= 0x1_0000_0000_0000_0000_0000_0000) by (nonlinear_arith);
                assert(0 <= x <= z ==> abs(x * y) <= abs(y) * z) by (nonlinear_arith);
            }
            let mut height_px: i128 = rise * factor;
            if height_px < 0 {
                // a price below the low end would be drawn under the chart:
                // mirror it above instead
                height_px = -height_px;
            }
            ScaledPoint { numerator: height_px as u128, denominator: span as u128 }
        };
        out.push(p);
        k += 1;
        assert(out@ =~= want.subrange(0, k as int));
    }
    assert(out@ =~= want);
    out
}

} // verus!
