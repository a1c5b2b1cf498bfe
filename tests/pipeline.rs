use stox::chart::{build_chart, Quote};
use stox::error::ChartError;
use stox::fixed::Fixed;
use stox::labels::{axis_labels, bucket_labels, dedup_labels, label_for, RangeSelector};
use stox::calendar::UtcTime;
use stox::money::{format_cents, format_price, money_or_plain, price_cents};
use stox::scale::{scale_prices, ScaledPoint};
use stox::ticks::{day_range_ticks, quartile_ticks};

fn strings(v: &[&str]) -> Vec<String> {
    v.iter().map(|s| s.to_string()).collect()
}

fn fixed(mantissa: i128, scale: u32) -> Fixed {
    Fixed { mantissa, scale }
}

fn as_f64(p: &ScaledPoint) -> f64 {
    p.numerator as f64 / p.denominator as f64
}

// 2021-03-15 00:00:00 UTC
const MARCH_15_2021: i64 = 1615766400;

#[test]
fn one_label_per_timestamp_for_every_range() {
    let ts = vec![0, 3600, 3600, 86400 * 40, MARCH_15_2021, MARCH_15_2021 + 7200];
    for code in ["1d", "5d", "1wk", "1mo", "3mo", "6mo", "1y", "2y", "5y", "10y", "ytd", "max"] {
        let labels = bucket_labels(&ts, code).unwrap();
        assert_eq!(labels.len(), ts.len(), "range {}", code);
    }
    assert_eq!(bucket_labels(&vec![], "1d").unwrap().len(), 0);
}

#[test]
fn dedup_keeps_repeats_that_are_not_neighbours() {
    assert_eq!(dedup_labels(strings(&["A", "B", "A"])), strings(&["A", "B", "A"]));
    assert_eq!(dedup_labels(strings(&["9", "10", "9"])), strings(&["9", "10", "9"]));
}

#[test]
fn dedup_collapses_neighbours() {
    assert_eq!(dedup_labels(strings(&["A", "A", "B"])), strings(&["A", "B"]));
    assert_eq!(dedup_labels(strings(&["9", "9", "10", "10"])), strings(&["9", "10"]));
    assert_eq!(dedup_labels(vec![]), Vec::<String>::new());
}

#[test]
fn one_day_label_of_epoch_hour_one() {
    assert_eq!(bucket_labels(&vec![3600], "1d").unwrap(), strings(&["1:00"]));
    assert_eq!(bucket_labels(&vec![0], "1d").unwrap(), strings(&["0:00"]));
    assert_eq!(bucket_labels(&vec![86399], "1d").unwrap(), strings(&["23:00"]));
}

#[test]
fn one_year_label_is_the_month() {
    assert_eq!(bucket_labels(&vec![MARCH_15_2021], "1y").unwrap(), strings(&["3"]));
}

#[test]
fn short_ranges_label_day_and_month() {
    assert_eq!(bucket_labels(&vec![MARCH_15_2021], "5d").unwrap(), strings(&["15/3"]));
    assert_eq!(bucket_labels(&vec![0], "1mo").unwrap(), strings(&["1/1"]));
}

#[test]
fn long_ranges_label_the_year() {
    assert_eq!(bucket_labels(&vec![MARCH_15_2021], "max").unwrap(), strings(&["2021"]));
    assert_eq!(bucket_labels(&vec![-1], "ytd").unwrap(), strings(&["1969"]));
    // 1 BCE is year 0, 2 BCE is year -1
    let year_zero_start: i64 = -62167219200;
    assert_eq!(bucket_labels(&vec![year_zero_start], "10y").unwrap(), strings(&["0"]));
    assert_eq!(bucket_labels(&vec![year_zero_start - 1], "5y").unwrap(), strings(&["-1"]));
}

#[test]
fn unknown_range_fails() {
    assert_eq!(bucket_labels(&vec![3600], "7h"), Err(ChartError::UnimplementedRange));
    assert_eq!(axis_labels(&vec![3600], "1D"), Err(ChartError::UnimplementedRange));
}

#[test]
fn timestamp_without_date_fails() {
    assert_eq!(bucket_labels(&vec![0, i64::MAX], "1d"), Err(ChartError::InvalidTimestamp));
    assert_eq!(bucket_labels(&vec![i64::MIN], "max"), Err(ChartError::InvalidTimestamp));
    assert_eq!(bucket_labels(&vec![8210266876799], "max").unwrap(), strings(&["262142"]));
    assert_eq!(bucket_labels(&vec![8210266876800], "max"), Err(ChartError::InvalidTimestamp));
    assert_eq!(bucket_labels(&vec![-8334601228800], "max").unwrap(), strings(&["-262143"]));
    assert_eq!(bucket_labels(&vec![-8334601228801], "max"), Err(ChartError::InvalidTimestamp));
}

#[test]
fn axis_labels_drop_adjacent_repeats() {
    let ts = vec![9 * 3600, 9 * 3600 + 60, 10 * 3600, 10 * 3600 + 1800, 9 * 3600 + 86400];
    assert_eq!(axis_labels(&ts, "1d").unwrap(), strings(&["9:00", "10:00", "9:00"]));
}

#[test]
fn label_for_each_kind() {
    let t = UtcTime { year: 2021, month: 3, day: 15, hour: 14 };
    assert_eq!(label_for(RangeSelector::OneDay, t), "14:00");
    assert_eq!(label_for(RangeSelector::OneWeek, t), "15/3");
    assert_eq!(label_for(RangeSelector::SixMonths, t), "3");
    assert_eq!(label_for(RangeSelector::TenYears, t), "2021");
    assert_eq!(RangeSelector::from_code("ytd"), Some(RangeSelector::YearToDate));
    assert_eq!(RangeSelector::from_code("7h"), None);
}

#[test]
fn day_range_quartiles() {
    let ticks = day_range_ticks("150.00 - 170.00").unwrap();
    let want: Vec<Fixed> = [150, 155, 160, 165, 170].iter().map(|&m| fixed(m, 0)).collect();
    assert_eq!(ticks, want);
}

#[test]
fn day_range_fractional_ticks() {
    let ticks = day_range_ticks("  1.5 - 2.5\n").unwrap();
    assert_eq!(ticks, vec![fixed(15, 1), fixed(175, 2), fixed(2, 0), fixed(225, 2), fixed(25, 1)]);
    let ticks = day_range_ticks("-1 - 1").unwrap();
    assert_eq!(ticks, vec![fixed(-1, 0), fixed(-5, 1), fixed(0, 0), fixed(5, 1), fixed(1, 0)]);
}

#[test]
fn day_range_high_below_low_gives_descending_ticks() {
    let ticks = day_range_ticks("170 - 150").unwrap();
    let want: Vec<Fixed> = [170, 165, 160, 155, 150].iter().map(|&m| fixed(m, 0)).collect();
    assert_eq!(ticks, want);
}

#[test]
fn day_range_malformed() {
    assert_eq!(day_range_ticks("150.00"), Err(ChartError::MalformedRangeString));
    assert_eq!(day_range_ticks("150.00-170.00"), Err(ChartError::MalformedRangeString));
    assert_eq!(day_range_ticks("1 - 2 - 3"), Err(ChartError::MalformedRangeString));
    assert_eq!(day_range_ticks(""), Err(ChartError::MalformedRangeString));
    assert_eq!(day_range_ticks("150 - "), Err(ChartError::MalformedRangeString));
}

#[test]
fn day_range_not_numbers() {
    assert_eq!(day_range_ticks("abc - 170"), Err(ChartError::NumberParseError));
    assert_eq!(day_range_ticks("150 - x"), Err(ChartError::NumberParseError));
    assert_eq!(day_range_ticks("1 - - 2"), Err(ChartError::NumberParseError));
    assert_eq!(day_range_ticks("1.2.3 - 4"), Err(ChartError::NumberParseError));
    assert_eq!(day_range_ticks(". - 4"), Err(ChartError::NumberParseError));
    assert_eq!(day_range_ticks("inf - 1"), Err(ChartError::NumberParseError));
    assert_eq!(day_range_ticks("NaN - 1"), Err(ChartError::NumberParseError));
    assert_eq!(day_range_ticks("1e - 2"), Err(ChartError::NumberParseError));
    assert_eq!(day_range_ticks("1e+ - 2"), Err(ChartError::NumberParseError));
    assert_eq!(day_range_ticks("e5 - 1"), Err(ChartError::NumberParseError));
    assert_eq!(day_range_ticks("1e2.5 - 1"), Err(ChartError::NumberParseError));
}

#[test]
fn day_range_exponent_form() {
    let ticks = day_range_ticks("1e2 - 2e2").unwrap();
    let want: Vec<Fixed> = [100, 125, 150, 175, 200].iter().map(|&m| fixed(m, 0)).collect();
    assert_eq!(ticks, want);
    let ticks = day_range_ticks("1.5E+1 - 2e1").unwrap();
    assert_eq!(ticks, vec![fixed(15, 0), fixed(1625, 2), fixed(175, 1), fixed(1875, 2), fixed(20, 0)]);
    let ticks = day_range_ticks("-5e-1 - 5e-1").unwrap();
    assert_eq!(ticks, vec![fixed(-5, 1), fixed(-25, 2), fixed(0, 0), fixed(25, 2), fixed(5, 1)]);
    let ticks = day_range_ticks("1000e-3 - 2").unwrap();
    assert_eq!(ticks, vec![fixed(1, 0), fixed(125, 2), fixed(15, 1), fixed(175, 2), fixed(2, 0)]);
    let ticks = day_range_ticks("0e999999999999999999999999 - 1").unwrap();
    assert_eq!(ticks, vec![fixed(0, 0), fixed(25, 2), fixed(5, 1), fixed(75, 2), fixed(1, 0)]);
}

#[test]
fn day_range_long_numbers() {
    let ticks = day_range_ticks("1234567890123456789012 - 1234567890123456789016").unwrap();
    let want: Vec<Fixed> = (12..17).map(|d| fixed(1234567890123456789000 + d, 0)).collect();
    assert_eq!(ticks, want);
    let ticks = day_range_ticks("0.000000000000000000000000000001 - 0.000000000000000000000000000005").unwrap();
    assert_eq!(ticks[1], fixed(2, 30));
}

#[test]
fn day_range_too_large_to_hold() {
    // 37 significant digits
    assert_eq!(
        day_range_ticks("1234567890123456789012345678901234567 - 1"),
        Err(ChartError::NumberParseError)
    );
    assert_eq!(day_range_ticks("1e999999999999999999999999 - 1"), Err(ChartError::NumberParseError));
    assert_eq!(day_range_ticks("1e-40 - 1"), Err(ChartError::NumberParseError));
    // each end is held, but not both at one scale
    assert_eq!(day_range_ticks("1e35 - 1e-5"), Err(ChartError::NumberParseError));
}

#[test]
fn quartiles_of_two_numbers() {
    let ticks = quartile_ticks(fixed(0, 0), fixed(1, 0));
    assert_eq!(ticks, vec![fixed(0, 0), fixed(25, 2), fixed(5, 1), fixed(75, 2), fixed(1, 0)]);
}

#[test]
fn scaled_points_of_three_prices() {
    let pts = scale_prices(&vec![100, 200, 150], 100);
    let want = [0.0, 95.0, 47.5];
    assert_eq!(pts.len(), 3);
    for (p, w) in pts.iter().zip(want.iter()) {
        assert!((as_f64(p) - w).abs() < 1e-9);
    }
}

#[test]
fn flat_series_scales_to_zero() {
    let pts = scale_prices(&vec![42, 42, 42], 100);
    assert_eq!(pts.len(), 3);
    for p in &pts {
        assert_eq!(as_f64(p), 0.0);
    }
}

#[test]
fn short_chart_mirrors_negative_heights() {
    // height 3 leaves 3 - 5 = -2 pixels; heights come out mirrored above zero
    let pts = scale_prices(&vec![100, 200, 150], 3);
    let want = [0.0, 2.0, 1.0];
    for (p, w) in pts.iter().zip(want.iter()) {
        assert!((as_f64(p) - w).abs() < 1e-9);
    }
}

#[test]
fn money_rounds_half_away_from_zero() {
    assert_eq!(price_cents(150_005_000), 15001);
    assert_eq!(price_cents(150_004_999), 15000);
    assert_eq!(price_cents(-150_005_000), -15001);
    assert_eq!(price_cents(0), 0);
    assert_eq!(format_price(150_005_000, "USD"), "$150.01");
}

#[test]
fn money_unknown_currency_is_plain() {
    assert_eq!(format_price(150_000_000, "XYZ"), "150.00");
    assert_eq!(format_price(-500_000, "XYZ"), "-0.50");
    assert_eq!(format_price(1_234_567_890, "BTC-USD"), "1234.57");
}

#[test]
fn money_from_cents() {
    assert_eq!(format_cents(15001, "USD"), "$150.01");
    assert_eq!(format_cents(15000, "XYZ"), "150.00");
    assert_eq!(format_cents(-5, "XYZ"), "-0.05");
}

#[test]
fn money_from_lookup_result() {
    assert_eq!(money_or_plain(None, 15000), "150.00");
    assert_eq!(money_or_plain(None, 7), "0.07");
    assert_eq!(money_or_plain(Some("€1,00".to_string()), 100), "€1,00");
}

#[test]
fn empty_quotes_give_no_chart() {
    assert!(matches!(build_chart(&vec![], "1d", "150.00 - 170.00", 100), Err(ChartError::EmptySeries)));
    assert!(matches!(build_chart(&vec![], "7h", "bad", 100), Err(ChartError::EmptySeries)));
}

#[test]
fn chart_from_quotes() {
    let quotes = vec![
        Quote { timestamp: 9 * 3600, close: 100_000_000 },
        Quote { timestamp: 9 * 3600 + 60, close: 200_000_000 },
        Quote { timestamp: 10 * 3600, close: 150_000_000 },
    ];
    let chart = build_chart(&quotes, "1d", "100 - 200", 100).unwrap();
    assert_eq!(chart.x_labels, strings(&["9:00", "10:00"]));
    assert_eq!(chart.y_ticks, vec![fixed(100, 0), fixed(125, 0), fixed(150, 0), fixed(175, 0), fixed(200, 0)]);
    let heights: Vec<f64> = chart.scaled_points.iter().map(as_f64).collect();
    assert_eq!(heights, vec![0.0, 95.0, 47.5]);
}

#[test]
fn chart_fails_fast() {
    let quotes = vec![Quote { timestamp: 0, close: 1 }];
    assert!(matches!(build_chart(&quotes, "7h", "1 - 2", 100), Err(ChartError::UnimplementedRange)));
    assert!(matches!(build_chart(&quotes, "1d", "1 2", 100), Err(ChartError::MalformedRangeString)));
    assert!(matches!(build_chart(&quotes, "1d", "x - 2", 100), Err(ChartError::NumberParseError)));
    let far = vec![Quote { timestamp: i64::MAX, close: 1 }];
    assert!(matches!(build_chart(&far, "1d", "x", 100), Err(ChartError::InvalidTimestamp)));
}
