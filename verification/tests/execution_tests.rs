use quant_platform::execution::{execution_step, Fill, Signal};
use quant_platform::risk::{classify_risk, RiskState};

#[test]
fn fills_follow_signal_changes() {
    let mut last = Signal::Flat;
    let stream = [Signal::Long, Signal::Long, Signal::Short, Signal::Flat, Signal::Long, Signal::Short, Signal::Short];
    let fills: Vec<Fill> = stream.iter().map(|s| execution_step(*s, &mut last)).collect();
    assert_eq!(
        fills,
        vec![Fill::Buy, Fill::NoFill, Fill::Sell, Fill::NoFill, Fill::Buy, Fill::Sell, Fill::NoFill]
    );
    assert_eq!(last, Signal::Short);
}

#[test]
fn repeated_signal_sends_nothing() {
    let mut last = Signal::Long;
    assert_eq!(execution_step(Signal::Long, &mut last), Fill::NoFill);
    assert_eq!(last, Signal::Long);
}

#[test]
fn flat_records_without_fill() {
    let mut last = Signal::Long;
    assert_eq!(execution_step(Signal::Flat, &mut last), Fill::NoFill);
    assert_eq!(last, Signal::Flat);
    assert_eq!(execution_step(Signal::Long, &mut last), Fill::Buy);
}

#[test]
fn fill_labels() {
    assert_eq!(Fill::Buy.label(), "BUY");
    assert_eq!(Fill::Sell.label(), "SELL");
    assert_eq!(Fill::NoFill.label(), "NONE");
}

#[test]
fn risk_classification_order() {
    assert_eq!(classify_risk(true, true, true), RiskState::LimitBreach);
    assert_eq!(classify_risk(true, false, false), RiskState::LimitBreach);
    assert_eq!(classify_risk(false, true, true), RiskState::LossLimit);
    assert_eq!(classify_risk(false, false, true), RiskState::Warning);
    assert_eq!(classify_risk(false, false, false), RiskState::Normal);
}

#[test]
fn risk_labels_and_counters() {
    assert_eq!(RiskState::Normal.label(), "OK");
    assert_eq!(RiskState::Warning.label(), "WARNING");
    assert_eq!(RiskState::LossLimit.label(), "LOSS_LIMIT");
    assert_eq!(RiskState::LimitBreach.label(), "LIMIT_BREACH");
    assert!(RiskState::Warning.is_warning());
    assert!(!RiskState::Warning.is_breach());
    assert!(RiskState::LossLimit.is_breach());
    assert!(RiskState::LimitBreach.is_breach());
    assert!(!RiskState::Normal.is_breach() && !RiskState::Normal.is_warning());
}
