use vstd::prelude::*;
use crate::calendar::{in_calendar, utc_time_at, utc_time_of, UtcTime};
use crate::chars::chars_of;
use crate::error::ChartError;
use crate::text::{decimal_digits, push_decimal, push_signed, signed_digits};

verus! {

/// The time range that a chart covers.
#[derive(Clone, Copy, Debug, PartialEq, Eq, Structural)]
pub enum RangeSelector {
    OneDay,
    FiveDays,
    OneWeek,
    OneMonth,
    ThreeMonths,
    SixMonths,
    OneYear,
    TwoYears,
    FiveYears,
    TenYears,
    YearToDate,
    Max,
}

/// The range that a code such as `"1d"` or `"ytd"` names.
pub open spec fn selector_of(code: Seq<char>) -> Option<RangeSelector> {
    if code == "1d"@ {
        Some(RangeSelector::OneDay)
    } else if code == "5d"@ {
        Some(RangeSelector::FiveDays)
    } else if code == "1wk"@ {
        Some(RangeSelector::OneWeek)
    } else if code == "1mo"@ {
        Some(RangeSelector::OneMonth)
    } else if code == "3mo"@ {
        Some(RangeSelector::ThreeMonths)
    } else if code == "6mo"@ {
        Some(RangeSelector::SixMonths)
    } else if code == "1y"@ {
        Some(RangeSelector::OneYear)
    } else if code == "2y"@ {
        Some(RangeSelector::TwoYears)
    } else if code == "5y"@ {
        Some(RangeSelector::FiveYears)
    } else if code == "10y"@ {
        Some(RangeSelector::TenYears)
    } else if code == "ytd"@ {
        Some(RangeSelector::YearToDate)
    } else if code == "max"@ {
        Some(RangeSelector::Max)
    } else {
        None
    }
}

/// The label of an instant on a chart of range `sel`: the hour and `":00"`
/// for one day; `day/month` up to a month; the month up to two years; the
/// year beyond.
pub open spec fn label_text(sel: RangeSelector, t: UtcTime) -> Seq<char> {
    match sel {
        RangeSelector::OneDay => decimal_digits(t.hour as nat) + seq![':', '0', '0'],
        RangeSelector::FiveDays | RangeSelector::OneWeek | RangeSelector::OneMonth => decimal_digits(
            t.day as nat,
        ) + seq!['/'] + decimal_digits(t.month as nat),
        RangeSelector::ThreeMonths | RangeSelector::SixMonths | RangeSelector::OneYear
        | RangeSelector::TwoYears => decimal_digits(t.month as nat),
        _ => signed_digits(t.year as int),
    }
}

/// The views of a sequence of strings.
pub open spec fn texts(v: Seq<String>) -> Seq<Seq<char>> {
    v.map_values(|s: String| s@)
}

/// The label of each timestamp, in order, or why there is none.
pub open spec fn bucket_spec(timestamps: Seq<i64>, code: Seq<char>) -> Result<
    Seq<Seq<char>>,
    ChartError,
> {
    match selector_of(code) {
        None => Err(ChartError::UnimplementedRange),
        Some(sel) => if forall|i: int|
            0 <= i < timestamps.len() ==> in_calendar(#[trigger] timestamps[i] as int) {
            Ok(Seq::new(timestamps.len(), |i: int| label_text(sel, utc_time_of(timestamps[i] as int))))
        } else {
            Err(ChartError::InvalidTimestamp)
        },
    }
}

/// `s` with each element that equals the one before it left out.
pub open spec fn dedup_adjacent<A>(s: Seq<A>) -> Seq<A>
    decreases s.len(),
{
    if s.len() <= 1 {
        s
    } else if s.last() == s[s.len() - 2] {
        dedup_adjacent(s.drop_last())
    } else {
        dedup_adjacent(s.drop_last()).push(s.last())
    }
}

/// No element of `s` equals the one before it.
pub open spec fn no_adjacent_repeats<A>(s: Seq<A>) -> bool {
    forall|i: int| 0 < i < s.len() ==> #[trigger] s[i] != s[i - 1]
}

/// The axis labels of a chart: the label of each timestamp with adjacent
/// repeats left out, or why there are none.
pub open spec fn axis_spec(timestamps: Seq<i64>, code: Seq<char>) -> Result<
    Seq<Seq<char>>,
    ChartError,
> {
    match bucket_spec(timestamps, code) {
        Ok(l) => Ok(dedup_adjacent(l)),
        Err(e) => Err(e),
    }
}

/// Whether the characters of `s` are those of `lit`.
pub fn text_is(s: &str, lit: &str) -> (r: bool)
    ensures
        r == (s@ == lit@),
{
    let a = chars_of(s);
    let b = chars_of(lit);
    if a.len() != b.len() {
        return false;
    }
    let mut i: usize = 0;
    while i < a.len()
        invariant
            a@ == s@,
            b@ == lit@,
            a@.len() == b@.len(),
            i <= a@.len(),
            a@.subrange(0, i as int) == b@.subrange(0, i as int),
        decreases a@.len() - i,
    {
        if a[i] != b[i] {
            return false;
        }
        i += 1;
        assert(a@.subrange(0, i as int) =~= b@.subrange(0, i as int)) by {
            assert forall|j: int| 0 <= j < i implies a@[j] == b@[j] by {
                if j < i - 1 {
                    assert(a@.subrange(0, i - 1)[j] == b@.subrange(0, i - 1)[j]);
                }
            }
        }
    }
    assert(a@ =~= a@.subrange(0, a@.len() as int));
    assert(b@ =~= b@.subrange(0, b@.len() as int));
    true
}

impl RangeSelector {
    /// Reads a range code such as `"1d"`, `"6mo"` or `"max"`.
    pub fn from_code(code: &str) -> (r: Option<RangeSelector>)
        ensures
            r == selector_of(code@),
    {
        if text_is(code, "1d") {
            Some(RangeSelector::OneDay)
        } else if text_is(code, "5d") {
            Some(RangeSelector::FiveDays)
        } else if text_is(code, "1wk") {
            Some(RangeSelector::OneWeek)
        } else if text_is(code, "1mo") {
            Some(RangeSelector::OneMonth)
        } else if text_is(code, "3mo") {
            Some(RangeSelector::ThreeMonths)
        } else if text_is(code, "6mo") {
            Some(RangeSelector::SixMonths)
        } else if text_is(code, "1y") {
            Some(RangeSelector::OneYear)
        } else if text_is(code, "2y") {
            Some(RangeSelector::TwoYears)
        } else if text_is(code, "5y") {
            Some(RangeSelector::FiveYears)
        } else if text_is(code, "10y") {
            Some(RangeSelector::TenYears)
        } else if text_is(code, "ytd") {
            Some(RangeSelector::YearToDate)
        } else if text_is(code, "max") {
            Some(RangeSelector::Max)
        } else {
            None
        }
    }
}

/// The label of one instant on a chart of range `sel` (see `label_text`).
pub fn label_for(sel: RangeSelector, t: UtcTime) -> (r: String)
    ensures
        r@ == label_text(sel, t),
{
    let mut out = String::new();
    match sel {
        RangeSelector::OneDay => {
            push_decimal(&mut out, t.hour as u64);
            proof {
                reveal_strlit(":00");
            }
            out.append(":00");
        },
        RangeSelector::FiveDays | RangeSelector::OneWeek | RangeSelector::OneMonth => {
            push_decimal(&mut out, t.day as u64);
            proof {
                reveal_strlit("/");
            }
            out.append("/");
            push_decimal(&mut out, t.month as u64);
        },
        RangeSelector::ThreeMonths | RangeSelector::SixMonths | RangeSelector::OneYear
        | RangeSelector::TwoYears => {
            push_decimal(&mut out, t.month as u64);
        },
        _ => {
            push_signed(&mut out, t.year as i64);
        },
    }
    assert(out@ =~= label_text(sel, t));
    out
}

/// The label of each timestamp on a chart of the range that `code` names,
/// one per timestamp and in order. Fails with `UnimplementedRange` for an
/// unknown code and with `InvalidTimestamp` where a timestamp has no date.
pub fn bucket_labels(timestamps: &Vec<i64>, code: &str) -> (r: Result<Vec<String>, ChartError>)
    ensures
        r matches Ok(v) ==> v@.len() == timestamps@.len(),
        match r {
            Ok(v) => bucket_spec(timestamps@, code@) == Ok::<Seq<Seq<char>>, ChartError>(
                texts(v@),
            ),
            Err(e) => bucket_spec(timestamps@, code@) == Err::<Seq<Seq<char>>, ChartError>(e),
        },
{
    let sel = match RangeSelector::from_code(code) {
        Some(sel) => sel,
        None => {
            return Err(ChartError::UnimplementedRange);
        },
    };
    let ghost want = Seq::new(
        timestamps@.len(),
        |i: int| label_text(sel, utc_time_of(timestamps@[i] as int)),
    );
    let mut out: Vec<String> = Vec::new();
    let mut i: usize = 0;
    while i < timestamps.len()
        invariant
            i <= timestamps@.len(),
            selector_of(code@) == Some(sel),
            want == Seq::new(
                timestamps@.len(),
                |i: int| label_text(sel, utc_time_of(timestamps@[i] as int)),
            ),
            forall|j: int| 0 <= j < i ==> in_calendar(#[trigger] timestamps@[j] as int),
            texts(out@) == want.subrange(0, i as int),
        decreases timestamps@.len() - i,
    {
        let ghost before = out@;
        match utc_time_at(timestamps[i]) {
            Some(t) => {
                let label = label_for(sel, t);
                out.push(label);
                assert(texts(out@) =~= texts(before).push(label@));
            },
            None => {
                return Err(ChartError::InvalidTimestamp);
            },
        }
        i += 1;
        assert(texts(out@) =~= want.subrange(0, i as int));
    }
    assert(texts(out@) =~= want);
    Ok(out)
}

/// `v` with each element that equals the one before it left out.
pub fn dedup_labels(v: Vec<String>) -> (r: Vec<String>)
    ensures
        texts(r@) == dedup_adjacent(texts(v@)),
{
    let mut out: Vec<String> = Vec::new();
    let mut i: usize = 0;
    while i < v.len()
        invariant
            i <= v@.len(),
            texts(out@) == dedup_adjacent(texts(v@).subrange(0, i as int)),
        decreases v@.len() - i,
    {
        let ghost pre = texts(v@).subrange(0, i as int);
        let ghost next = texts(v@).subrange(0, i + 1);
        assert(next.drop_last() =~= pre);
        if i == 0 || v[i] != v[i - 1] {
            out.push(v[i].clone());
            proof {
                if i == 0 {
                    assert(pre =~= Seq::<Seq<char>>::empty());
                    assert(next =~= seq![v@[0]@]);
                }
            }
        }
        i += 1;
        assert(texts(out@) =~= dedup_adjacent(texts(v@).subrange(0, i as int)));
    }
    assert(texts(v@).subrange(0, i as int) =~= texts(v@));
    out
}

/// The axis labels of a chart of the range that `code` names: one label per
/// timestamp, with adjacent repeats left out (see `axis_spec`).
pub fn axis_labels(timestamps: &Vec<i64>, code: &str) -> (r: Result<Vec<String>, ChartError>)
    ensures
        match r {
            Ok(v) => axis_spec(timestamps@, code@) == Ok::<Seq<Seq<char>>, ChartError>(
                texts(v@),
            ),
            Err(e) => axis_spec(timestamps@, code@) == Err::<Seq<Seq<char>>, ChartError>(e),
        },
{
    match bucket_labels(timestamps, code) {
        Ok(v) => Ok(dedup_labels(v)),
        Err(e) => Err(e),
    }
}

/// Leaving out adjacent repeats never lengthens a sequence, keeps its first
/// and last element, leaves no two equal neighbours, and changes nothing in
/// a sequence that has no equal neighbours, so that repeats which are not
/// neighbours stay.
pub proof fn lemma_dedup_adjacent<A>(s: Seq<A>)
    ensures
        dedup_adjacent(s).len() <= s.len(),
        s.len() > 0 ==> dedup_adjacent(s).len() > 0 && dedup_adjacent(s)[0] == s[0]
            && dedup_adjacent(s).last() == s.last(),
        no_adjacent_repeats(dedup_adjacent(s)),
        no_adjacent_repeats(s) ==> dedup_adjacent(s) == s,
    decreases s.len(),
{
    if s.len() > 1 {
        let t = s.drop_last();
        lemma_dedup_adjacent(t);
        let d = dedup_adjacent(t);
        if no_adjacent_repeats(s) {
            assert forall|i: int| 0 < i < t.len() implies #[trigger] t[i] != t[i - 1] by {
                assert(s[i] != s[i - 1]);
            }
            assert(s.last() != s[s.len() - 2]) by {
                assert(s[s.len() - 1] != s[s.len() - 1 - 1]);
            }
            assert(d.push(s.last()) =~= s);
        }
        if s.last() != s[s.len() - 2] {
            let e = d.push(s.last());
            assert forall|i: int| 0 < i < e.len() implies #[trigger] e[i] != e[i - 1] by {
                if i < d.len() {
                    assert(e[i] == d[i] && e[i - 1] == d[i - 1]);
                } else {
                    assert(e[i - 1] == d.last());
                }
            }
        }
    }
}

} // verus!
