use vstd::prelude::*;
use crate::error::ChartError;
use crate::chars::{chars_of, slice_of, trim_chars, trimmed};
use crate::fixed::{
    decimal_of, lemma_decimal_bounds, lemma_le_same_value, lemma_normal_same_value,
    lemma_pow10_36, lemma_pow10_add, lemma_pow10_monotonic, lemma_pow10_positive, parse_decimal,
    pow10, pow10_exec, Fixed, HELD_DIGITS,
};

verus! {

/// Whether `s` holds the separator `" - "` at `i`.
pub open spec fn sep_at(s: Seq<char>, i: int) -> bool {
    0 <= i && i + 3 <= s.len() && s[i] == ' ' && s[i + 1] == '-' && s[i + 2] == ' '
}

/// The first separator of `s` at or after `i`.
pub open spec fn sep_from(s: Seq<char>, i: int) -> Option<int>
    decreases s.len() - i,
{
    if i < 0 || i + 3 > s.len() {
        None
    } else if sep_at(s, i) {
        Some(i)
    } else {
        sep_from(s, i + 1)
    }
}

/// The two parts of a day-range text: the trimmed text split at each `" - "`
/// from left to right, when that gives exactly two parts.
pub open spec fn range_halves(s: Seq<char>) -> Option<(Seq<char>, Seq<char>)> {
    let t = trimmed(s);
    match sep_from(t, 0) {
        Some(p) => if sep_from(t, p + 3) is None {
            Some((t.subrange(0, p), t.subrange(p + 3, t.len() as int)))
        } else {
            None
        },
        None => None,
    }
}

/// `f`'s mantissa at scale `s`.
pub open spec fn at_scale(f: Fixed, s: nat) -> int {
    f.mantissa * pow10((s - f.scale) as nat)
}

pub open spec fn common_scale(lo: Fixed, hi: Fixed) -> nat {
    if lo.scale >= hi.scale {
        lo.scale as nat
    } else {
        hi.scale as nat
    }
}

/// The point `k` quarters of the way from `lo` to `hi`: `lo + k * (hi - lo) / 4`,
/// exact, with no trailing zeros in its fraction.
pub open spec fn quarter_point(lo: Fixed, hi: Fixed, k: int) -> Fixed {
    let s = common_scale(lo, hi);
    (Fixed {
        mantissa: (((4 - k) * at_scale(lo, s) + k * at_scale(hi, s)) * 25) as i128,
        scale: (s + 2) as u32,
    }).normal()
}

/// A bound on mantissas: `10^HELD_DIGITS`.
pub open spec fn held_bound() -> int {
    1000000000000000000000000000000000000
}

/// Whether both ends, written at their common scale, have mantissas of at
/// most `HELD_DIGITS` digits, so that the ticks between them can be held.
pub open spec fn pair_fits(lo: Fixed, hi: Fixed) -> bool {
    let s = common_scale(lo, hi);
    &&& -held_bound() < at_scale(lo, s) < held_bound()
    &&& -held_bound() < at_scale(hi, s) < held_bound()
}

/// The five ticks at 0, 25, 50, 75 and 100 percent of the way from `lo` to `hi`.
pub open spec fn quartiles(lo: Fixed, hi: Fixed) -> Seq<Fixed> {
    seq![
        quarter_point(lo, hi, 0),
        quarter_point(lo, hi, 1),
        quarter_point(lo, hi, 2),
        quarter_point(lo, hi, 3),
        quarter_point(lo, hi, 4),
    ]
}

/// What a day-range text such as `"150.00 - 170.00"` gives: the two halves
/// must be numbers (see `decimal_of`) whose ticks can be held (see
/// `pair_fits`).
pub open spec fn range_ticks(s: Seq<char>) -> Result<Seq<Fixed>, ChartError> {
    match range_halves(s) {
        None => Err(ChartError::MalformedRangeString),
        Some((a, b)) => match (decimal_of(a), decimal_of(b)) {
            (Some(lo), Some(hi)) => if pair_fits(lo, hi) {
                Ok(quartiles(lo, hi))
            } else {
                Err(ChartError::NumberParseError)
            },
            _ => Err(ChartError::NumberParseError),
        },
    }
}

/// Where the first separator of `s` at or after `from` stands, if any.
fn find_sep(s: &Vec<char>, from: usize) -> (r: Option<usize>)
    requires
        from <= s@.len(),
    ensures
        r matches Some(p) ==> sep_from(s@, from as int) == Some(p as int),
        r is None ==> sep_from(s@, from as int) is None,
{
    let n = s.len();
    let mut i: usize = from;
    while n - i >= 3
        invariant
            from <= i <= n,
            n == s@.len(),
            sep_from(s@, from as int) == sep_from(s@, i as int),
        decreases n - i,
    {
        if s[i] == ' ' && s[i + 1] == '-' && s[i + 2] == ' ' {
            return Some(i);
        }
        i += 1;
    }
    None
}

/// `f`'s mantissa at scale `s`, where it has at most `HELD_DIGITS` digits.
fn fit_at_scale(f: Fixed, s: u32) -> (r: Option<i128>)
    requires
        f.scale <= s <= HELD_DIGITS,
    ensures
        r is Some <==> -held_bound() < at_scale(f, s as nat) < held_bound(),
        r matches Some(v) ==> v == at_scale(f, s as nat),
{
    let d = s - f.scale;
    let limit = pow10_exec(HELD_DIGITS - d);
    let p = pow10_exec(d);
    proof {
        lemma_pow10_add((HELD_DIGITS - d) as nat, d as nat);
        lemma_pow10_36();
        lemma_pow10_positive(d as nat);
        lemma_pow10_positive((HELD_DIGITS - d) as nat);
        lemma_pow10_monotonic(d as nat, 36);
        lemma_pow10_monotonic((HELD_DIGITS - d) as nat, 36);
        let m = f.mantissa as int;
        let l = limit as int;
        let q = p as int;
        assert(l * q == held_bound());
        assert((-l < m < l) == (-(l * q) < m * q < l * q)) by (nonlinear_arith)
            requires
                l >= 1,
                q >= 1,
        ;
    }
    if -(limit as i128) < f.mantissa && f.mantissa < limit as i128 {
        Some(f.mantissa * (p as i128))
    } else {
        None
    }
}

/// Whether the ticks between two numbers can be held (see `pair_fits`).
pub fn ticks_fit(lo: Fixed, hi: Fixed) -> (r: bool)
    requires
        lo.scale <= HELD_DIGITS,
        hi.scale <= HELD_DIGITS,
    ensures
        r == pair_fits(lo, hi),
{
    let s: u32 = if lo.scale >= hi.scale {
        lo.scale
    } else {
        hi.scale
    };
    fit_at_scale(lo, s).is_some() && fit_at_scale(hi, s).is_some()
}

/// The five ticks between two numbers (see `quartiles`).
pub fn quartile_ticks(lo: Fixed, hi: Fixed) -> (r: Vec<Fixed>)
    requires
        lo.scale <= HELD_DIGITS,
        hi.scale <= HELD_DIGITS,
        pair_fits(lo, hi),
    ensures
        r@ == quartiles(lo, hi),
{
    let s: u32 = if lo.scale >= hi.scale {
        lo.scale
    } else {
        hi.scale
    };
    let a = match fit_at_scale(lo, s) {
        Some(a) => a,
        None => {
            return Vec::new();
        },
    };
    let b = match fit_at_scale(hi, s) {
        Some(b) => b,
        None => {
            return Vec::new();
        },
    };
    let mut r: Vec<Fixed> = Vec::new();
    let mut k: i128 = 0;
    while k <= 4
        invariant
            0 <= k <= 5,
            s as nat == common_scale(lo, hi),
            a == at_scale(lo, s as nat),
            b == at_scale(hi, s as nat),
            -1000000000000000000000000000000000000 < a < 1000000000000000000000000000000000000,
            -1000000000000000000000000000000000000 < b < 1000000000000000000000000000000000000,
            s <= HELD_DIGITS,
            r@ == quartiles(lo, hi).subrange(0, k as int),
        decreases 5 - k,
    {
        proof {
            let x = a as int;
            let y = b as int;
            let kk = k as int;
            assert(-1000000000000000000000000000000000000 < x < 1000000000000000000000000000000000000
                && -1000000000000000000000000000000000000 < y
                < 1000000000000000000000000000000000000 && 0 <= kk <= 4 ==> -100000000000000000000000000000000000000
                < ((4 - kk) * x + kk * y) * 25 < 100000000000000000000000000000000000000)
                by (nonlinear_arith);
        }
        let t = Fixed { mantissa: ((4 - k) * a + k * b) * 25, scale: s + 2 };
        r.push(t.normalize());
        k += 1;
        assert(r@ =~= quartiles(lo, hi).subrange(0, k as int));
    }
    assert(r@ =~= quartiles(lo, hi));
    r
}

/// Reads a day range such as `"150.00 - 170.00"` and gives the five ticks
/// from its low to its high end (see `range_ticks`).
pub fn day_range_ticks(text: &str) -> (r: Result<Vec<Fixed>, ChartError>)
    ensures
        match r {
            Ok(v) => range_ticks(text@) == Ok::<Seq<Fixed>, ChartError>(v@),
            Err(e) => range_ticks(text@) == Err::<Seq<Fixed>, ChartError>(e),
        },
{
    let all = chars_of(text);
    let t = trim_chars(&all);
    let p = match find_sep(&t, 0) {
        Some(p) => p,
        None => {
            return Err(ChartError::MalformedRangeString);
        },
    };
    proof {
        lemma_sep_from_bounds(t@, 0);
        assert(sep_from(t@, 0) == Some(p as int));
        assert(p + 3 <= t@.len());
    }
    if find_sep(&t, p + 3).is_some() {
        return Err(ChartError::MalformedRangeString);
    }
    let low_text = slice_of(&t, 0, p);
    let high_text = slice_of(&t, p + 3, t.len());
    let lo = parse_decimal(&low_text);
    let hi = parse_decimal(&high_text);
    match (lo, hi) {
        (Some(lo), Some(hi)) => {
            proof {
                lemma_decimal_bounds(low_text@);
                lemma_decimal_bounds(high_text@);
            }
            if ticks_fit(lo, hi) {
                Ok(quartile_ticks(lo, hi))
            } else {
                Err(ChartError::NumberParseError)
            }
        },
        _ => Err(ChartError::NumberParseError),
    }
}

/// The first tick is the low end and the last the high end, as numbers;
/// and where the low end is at most the high end, the five ticks rise: each
/// is at most the next.
pub proof fn lemma_ticks_ascending(lo: Fixed, hi: Fixed)
    requires
        lo.scale <= HELD_DIGITS,
        hi.scale <= HELD_DIGITS,
        pair_fits(lo, hi),
    ensures
        quartiles(lo, hi)[0].same_value(lo),
        quartiles(lo, hi)[4].same_value(hi),
        lo.le_value(hi) ==> forall|k: int|
            0 <= k < 4 ==> #[trigger] quartiles(lo, hi)[k].le_value(quartiles(lo, hi)[k + 1]),
{
    let s = common_scale(lo, hi);
    let e = (s - lo.scale) as nat;
    let f = (s - hi.scale) as nat;
    lemma_pow10_add(e, lo.scale as nat);
    lemma_pow10_add(f, hi.scale as nat);
    lemma_pow10_add(s, 2);
    lemma_pow10_positive(lo.scale as nat);
    lemma_pow10_positive(hi.scale as nat);
    lemma_pow10_positive(s);
    lemma_pow10_positive(e);
    lemma_pow10_positive(f);
    lemma_pow10_positive(s + 2);
    assert(pow10(2) == 100) by {
        reveal_with_fuel(pow10, 3);
    }
    let lm = lo.mantissa as int;
    let hm = hi.mantissa as int;
    let x = pow10(lo.scale as nat) as int;
    let y = pow10(hi.scale as nat) as int;
    let z = pow10(s) as int;
    let pe = pow10(e) as int;
    let pf = pow10(f) as int;
    let w = pow10(s + 2) as int;
    let a = at_scale(lo, s);
    let b = at_scale(hi, s);
    assert(a == lm * pe && b == hm * pf);
    assert(w == z * 100);
    // the ends
    let u0 = Fixed { mantissa: (((4 - 0) * a + 0 * b) * 25) as i128, scale: (s + 2) as u32 };
    let u4 = Fixed { mantissa: (((4 - 4) * a + 4 * b) * 25) as i128, scale: (s + 2) as u32 };
    assert(u0.mantissa == 100 * a && u4.mantissa == 100 * b);
    assert(u0.same_value(lo)) by {
        assert((100 * (lm * pe)) * x == lm * (z * 100)) by (nonlinear_arith)
            requires
                pe * x == z,
        ;
    }
    assert(u4.same_value(hi)) by {
        assert((100 * (hm * pf)) * y == hm * (z * 100)) by (nonlinear_arith)
            requires
                pf * y == z,
        ;
    }
    assert(quartiles(lo, hi)[0] == u0.normal());
    assert(quartiles(lo, hi)[4] == u4.normal());
    lemma_normal_same_value(u0);
    lemma_normal_same_value(u4);
    lemma_same_value_trans(u0.normal(), u0, lo);
    lemma_same_value_trans(u4.normal(), u4, hi);
    if lo.le_value(hi) {
        assert(lm * pe <= hm * pf) by (nonlinear_arith)
            requires
                pe * x == z,
                pf * y == z,
                lm * y <= hm * x,
                x > 0,
                y > 0,
                z > 0,
        ;
        assert forall|k: int| 0 <= k < 4 implies #[trigger] quartiles(lo, hi)[k].le_value(
            quartiles(lo, hi)[k + 1],
        ) by {
            let mu = ((4 - k) * a + k * b) * 25;
            let mv = ((4 - (k + 1)) * a + (k + 1) * b) * 25;
            assert(-100000000000000000000000000000000000000 < mu
                < 100000000000000000000000000000000000000 && -100000000000000000000000000000000000000
                < mv < 100000000000000000000000000000000000000 && mu <= mv) by (nonlinear_arith)
                requires
                    mu == ((4 - k) * a + k * b) * 25,
                    mv == ((4 - (k + 1)) * a + (k + 1) * b) * 25,
                    a <= b,
                    0 <= k < 4,
                    -1000000000000000000000000000000000000 < a
                        < 1000000000000000000000000000000000000,
                    -1000000000000000000000000000000000000 < b
                        < 1000000000000000000000000000000000000,
            ;
            let u = Fixed { mantissa: mu as i128, scale: (s + 2) as u32 };
            let v = Fixed { mantissa: mv as i128, scale: (s + 2) as u32 };
            assert(u.mantissa * w <= v.mantissa * w) by (nonlinear_arith)
                requires
                    u.mantissa <= v.mantissa,
                    w > 0,
            ;
            assert(u.le_value(v));
            assert(quartiles(lo, hi)[k] == u.normal());
            assert(quartiles(lo, hi)[k + 1] == v.normal());
            lemma_normal_same_value(u);
            lemma_normal_same_value(v);
            lemma_le_same_value(u.normal(), u, v.normal(), v);
        }
    }
}

/// Two texts of one number as a third are texts of one number.
proof fn lemma_same_value_trans(x: Fixed, y: Fixed, z: Fixed)
    requires
        x.same_value(y),
        y.same_value(z),
    ensures
        x.same_value(z),
{
    let a = x.mantissa as int;
    let b = y.mantissa as int;
    let c = z.mantissa as int;
    let p = pow10(x.scale as nat) as int;
    let q = pow10(y.scale as nat) as int;
    let r = pow10(z.scale as nat) as int;
    lemma_pow10_positive(y.scale as nat);
    assert(a * r == c * p) by (nonlinear_arith)
        requires
            a * q == b * p,
            b * r == c * q,
            q > 0,
    ;
}

proof fn lemma_sep_from_bounds(s: Seq<char>, i: int)
    requires
        0 <= i,
    ensures
        sep_from(s, i) matches Some(p) ==> i <= p && p + 3 <= s.len() && sep_at(s, p),
    decreases s.len() - i,
{
    if i + 3 <= s.len() && !sep_at(s, i) {
        lemma_sep_from_bounds(s, i + 1);
    }
}

} // verus!
