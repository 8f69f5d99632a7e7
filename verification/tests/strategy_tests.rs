use quant_platform::execution::Signal;
use quant_platform::regime::Regime;
use quant_platform::strategy::{backtest_signal, benchmark_regime, live_signal, market_regime, MarketRegime};

#[test]
fn live_signal_needs_every_check() {
    assert_eq!(live_signal(true, true, true, false, true, false, true, false), Signal::Long);
    assert_eq!(live_signal(true, true, false, true, false, true, false, true), Signal::Short);
    assert_eq!(live_signal(false, true, true, false, true, false, true, false), Signal::Flat);
    assert_eq!(live_signal(true, false, false, true, false, true, false, true), Signal::Flat);
    assert_eq!(live_signal(true, true, true, false, true, false, false, true), Signal::Flat);
}

#[test]
fn backtest_signal_goes_long_or_flat() {
    assert_eq!(backtest_signal(true, true, true, true, false, false), Signal::Long);
    assert_eq!(backtest_signal(true, false, false, false, true, true), Signal::Long);
    assert_eq!(backtest_signal(false, true, true, true, true, true), Signal::Flat);
    assert_eq!(backtest_signal(true, true, true, false, true, false), Signal::Flat);
}

#[test]
fn market_regime_order_of_checks() {
    assert_eq!(market_regime(true, true, true), MarketRegime::HighVol);
    assert_eq!(market_regime(false, true, true), MarketRegime::TrendingConfirmed);
    assert_eq!(market_regime(false, true, false), MarketRegime::Trending);
    assert_eq!(market_regime(false, false, true), MarketRegime::RangeBound);
    assert_eq!(MarketRegime::TrendingConfirmed.label(), "TRENDING_CONFIRMED");
    assert_eq!(MarketRegime::RangeBound.label(), "RANGE_BOUND");
}

#[test]
fn benchmark_regime_cases() {
    assert_eq!(benchmark_regime(true, true, false, false), Regime::Bull);
    assert_eq!(benchmark_regime(true, false, false, true), Regime::Defensive);
    assert_eq!(benchmark_regime(false, false, true, true), Regime::Crash);
    assert_eq!(benchmark_regime(false, true, true, false), Regime::Defensive);
    assert_eq!(benchmark_regime(false, true, false, true), Regime::Defensive);
}

#[test]
fn signal_label_texts() {
    assert_eq!(Signal::Long.label(), "LONG");
    assert_eq!(Signal::Short.label(), "SHORT");
    assert_eq!(Signal::Flat.label(), "FLAT");
    assert_eq!(Signal::from_label(Signal::Short.label()), Signal::Short);
}
