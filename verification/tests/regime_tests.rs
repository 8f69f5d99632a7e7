use quant_platform::book::BookSide;
use quant_platform::execution::Signal;
use quant_platform::regime::{asset_allowed, holding_count, is_aggressive, is_defensive, is_rebalance_day, research_checks_pass, Asset, Regime};
use quant_platform::text::bytes_equal;

#[test]
fn symbols_name_assets() {
    assert_eq!(Asset::from_symbol("SPY"), Asset::Spy);
    assert_eq!(Asset::from_symbol("QQQ"), Asset::Qqq);
    assert_eq!(Asset::from_symbol("IWM"), Asset::Iwm);
    assert_eq!(Asset::from_symbol("TLT"), Asset::Tlt);
    assert_eq!(Asset::from_symbol("GLD"), Asset::Gld);
    assert_eq!(Asset::from_symbol("DBC"), Asset::Dbc);
    assert_eq!(Asset::from_symbol("UUP"), Asset::Uup);
    assert_eq!(Asset::from_symbol("BTC"), Asset::Btc);
    assert_eq!(Asset::from_symbol("spy"), Asset::Other);
    assert_eq!(Asset::from_symbol("VNQ"), Asset::Other);
    assert_eq!(Asset::from_symbol(""), Asset::Other);
}

#[test]
fn regime_allowed_assets() {
    for a in [Asset::Spy, Asset::Qqq, Asset::Iwm, Asset::Tlt, Asset::Gld, Asset::Dbc, Asset::Uup, Asset::Btc] {
        assert!(asset_allowed(Regime::Bull, a));
    }
    assert!(!asset_allowed(Regime::Bull, Asset::Other));
    assert!(asset_allowed(Regime::Crash, Asset::Tlt));
    assert!(asset_allowed(Regime::Crash, Asset::Gld));
    assert!(asset_allowed(Regime::Crash, Asset::Uup));
    assert!(!asset_allowed(Regime::Crash, Asset::Spy));
    assert!(!asset_allowed(Regime::Crash, Asset::Btc));
    assert!(asset_allowed(Regime::Defensive, Asset::Spy));
    assert!(asset_allowed(Regime::Defensive, Asset::Qqq));
    assert!(asset_allowed(Regime::Defensive, Asset::Uup));
    assert!(!asset_allowed(Regime::Defensive, Asset::Iwm));
    assert!(!asset_allowed(Regime::Defensive, Asset::Btc));
}

#[test]
fn asset_groups() {
    assert!(is_defensive(Asset::Gld) && is_aggressive(Asset::Gld));
    assert!(!is_defensive(Asset::Spy) && is_aggressive(Asset::Spy));
    assert!(is_defensive(Asset::Tlt) && !is_aggressive(Asset::Tlt));
}

#[test]
fn regime_holding_counts() {
    assert_eq!(holding_count(Regime::Bull), 3);
    assert_eq!(holding_count(Regime::Crash), 2);
    assert_eq!(holding_count(Regime::Defensive), 2);
}

#[test]
fn rebalance_calendar() {
    assert!(is_rebalance_day(252));
    assert!(is_rebalance_day(273));
    assert!(is_rebalance_day(294));
    assert!(!is_rebalance_day(253));
    assert!(!is_rebalance_day(272));
    let days: Vec<usize> = (252..320).filter(|d| is_rebalance_day(*d)).collect();
    assert_eq!(days, vec![252, 273, 294, 315]);
}

#[test]
fn signal_labels() {
    assert_eq!(Signal::from_label("LONG"), Signal::Long);
    assert_eq!(Signal::from_label("SHORT"), Signal::Short);
    assert_eq!(Signal::from_label("FLAT"), Signal::Flat);
    assert_eq!(Signal::from_label("long"), Signal::Flat);
    assert_eq!(Signal::from_label(""), Signal::Flat);
}

#[test]
fn side_labels() {
    assert_eq!(BookSide::from_label("buy"), BookSide::Buy);
    assert_eq!(BookSide::from_label("sell"), BookSide::Sell);
    assert_eq!(BookSide::from_label("BUY"), BookSide::Other);
    assert_eq!(BookSide::from_label(""), BookSide::Other);
}

#[test]
fn byte_comparison() {
    assert!(bytes_equal(b"abc", b"abc"));
    assert!(!bytes_equal(b"abc", b"abd"));
    assert!(!bytes_equal(b"ab", b"abc"));
    assert!(bytes_equal(b"", b""));
}

#[test]
fn research_needs_four_checks() {
    assert!(research_checks_pass(&[true, true, true, true, false]));
    assert!(research_checks_pass(&[true, true, true, true, true]));
    assert!(!research_checks_pass(&[true, false, true, true, false]));
    assert!(!research_checks_pass(&[]));
}

#[test]
fn regimes_are_nested() {
    for a in [Asset::Spy, Asset::Qqq, Asset::Iwm, Asset::Tlt, Asset::Gld, Asset::Dbc, Asset::Uup, Asset::Btc, Asset::Other] {
        if asset_allowed(Regime::Crash, a) {
            assert!(asset_allowed(Regime::Defensive, a));
        }
        if asset_allowed(Regime::Defensive, a) {
            assert!(asset_allowed(Regime::Bull, a));
        }
    }
}

#[test]
fn rebalancing_never_waits_a_full_period() {
    for idx in 252..2000usize {
        assert!((idx..idx + 21).any(is_rebalance_day));
    }
}
