use stox::info::{
    is_bankrupt_symbol, stat_text, stox_get_chart_x_axis, stox_get_chart_y_axis,
    stox_scale_quotes, with_sign, ExtendedInfo, MainInfo, StatsInfo,
};
use stox::ellipsis::Ellipsis;
use stox::fixed::Fixed;
use stox::session::{
    needs_update, persistence_disabled_by, remove_symbol, row_after_search, saved_symbols_from,
    should_search, RefreshGate, RowFate, SavedStocksError,
};

fn strings(v: &[&str]) -> Vec<String> {
    v.iter().map(|s| s.to_string()).collect()
}

#[test]
fn main_info_from_provider_values() {
    let info = MainInfo::new(
        "AAPL",
        15001,
        "Apple Inc.".to_string(),
        "Apple".to_string(),
        "EQUITY".to_string(),
        "usd",
        vec![3600],
    );
    assert_eq!(info.currency, "USD");
    assert_eq!(info.last_quote, "$150.01");
    assert_eq!(info.name, "Apple Inc.");
    assert!(!info.bankruptcy);
    assert_eq!(stox_get_chart_x_axis(&info, "1d").unwrap(), strings(&["1:00"]));
}

#[test]
fn main_info_falls_back_to_short_name() {
    let info = MainInfo::new("ABCDQ", 100, String::new(), "Abcd".to_string(), "EQUITY".to_string(), "xyz", vec![]);
    assert_eq!(info.name, "Abcd");
    assert_eq!(info.last_quote, "1.00");
    assert!(info.bankruptcy);
}

#[test]
fn bankruptcy_mark() {
    assert!(is_bankrupt_symbol("ABCDQ"));
    assert!(!is_bankrupt_symbol("ABCQ"));
    assert!(!is_bankrupt_symbol("ABCDE"));
    assert!(!is_bankrupt_symbol("ABCDEQ"));
}

#[test]
fn changes_get_their_sign() {
    let ext = ExtendedInfo::new("NasdaqGS".to_string(), "1 - 2".to_string(), "1.25".to_string(), "0.50".to_string());
    assert_eq!(ext.market_change, "+1.25");
    assert_eq!(ext.market_change_percent, "+0.50%");
    assert!(!ext.market_change_neg());
    let ext = ExtendedInfo::new("NYSE".to_string(), "1 - 2".to_string(), "-3.10".to_string(), "-2.00".to_string());
    assert_eq!(ext.market_change, "-3.10");
    assert_eq!(ext.market_change_percent, "-2.00%");
    assert!(ext.market_change_neg());
    assert_eq!(with_sign(String::new()), "+");
}

#[test]
fn y_axis_from_extended_info() {
    let ext = ExtendedInfo::new("X".to_string(), "150.00 - 170.00".to_string(), "0".to_string(), "0".to_string());
    let ticks = stox_get_chart_y_axis(&ext).unwrap();
    assert_eq!(ticks[2], Fixed { mantissa: 160, scale: 0 });
}

#[test]
fn scale_quotes_by_height() {
    let pts = stox_scale_quotes(&vec![1, 3], 25);
    assert_eq!(pts[1].numerator as f64 / pts[1].denominator as f64, 20.0);
}

#[test]
fn stat_texts() {
    assert_eq!(stat_text(None), "N/A");
    assert_eq!(stat_text(Some("2.41t")), "2.41T");
    let s = StatsInfo::unavailable();
    assert_eq!(s.open, "???");
    assert_eq!(s.eps, "???");
}

#[test]
fn saved_file_version() {
    assert_eq!(saved_symbols_from(1, strings(&["AAPL"])), Ok(strings(&["AAPL"])));
    assert_eq!(saved_symbols_from(2, strings(&["AAPL"])), Err(SavedStocksError::UnknownVersion));
}

#[test]
fn persistence_switch() {
    assert!(persistence_disabled_by(Some("1")));
    assert!(!persistence_disabled_by(Some("0")));
    assert!(!persistence_disabled_by(Some("11")));
    assert!(!persistence_disabled_by(None));
}

#[test]
fn search_text_gate() {
    assert!(should_search("AAPL"));
    assert!(!should_search(""));
    assert!(!should_search("Äpfel"));
}

#[test]
fn sidebar_rows_after_search() {
    assert_eq!(row_after_search(true, false, true), RowFate { visible: true, keep: true });
    assert_eq!(row_after_search(false, false, true), RowFate { visible: false, keep: true });
    assert_eq!(row_after_search(true, true, true), RowFate { visible: false, keep: false });
}

#[test]
fn removing_a_saved_symbol() {
    let mut list = strings(&["A", "B", "A"]);
    assert!(remove_symbol(&mut list, "A"));
    assert_eq!(list, strings(&["B", "A"]));
    assert!(!remove_symbol(&mut list, "C"));
    assert_eq!(list, strings(&["B", "A"]));
}

#[test]
fn stale_refreshes_are_told_apart() {
    let mut gate = RefreshGate::new();
    let first = gate.begin();
    assert!(gate.is_current(first));
    let second = gate.begin();
    assert!(!gate.is_current(first));
    assert!(gate.is_current(second));
}

#[test]
fn update_needed() {
    assert!(needs_update(false, "--", "AAPL"));
    assert!(!needs_update(false, "AAPL", "AAPL"));
    assert!(needs_update(true, "AAPL", "AAPL"));
}

#[test]
fn label_cut_to_fit() {
    let mut fit = Ellipsis::new("AAPL".to_string());
    assert_eq!(fit.shown(), "AAPL");
    assert!(!fit.is_cut());
    fit.shorten();
    assert_eq!(fit.shown(), "AAP\u{2026}");
    assert!(fit.is_cut());
    fit.shorten();
    fit.shorten();
    fit.shorten();
    assert_eq!(fit.shown(), "\u{2026}");
    assert!(!fit.can_shorten());
}
