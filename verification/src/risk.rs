//! The risk state that the risk checks assign to an execution snapshot.
use vstd::prelude::*;

verus! {

/// The risk state of a position.
#[derive(Clone, Copy, Debug, PartialEq, Eq, Structural)]
pub enum RiskState {
    /// Within all limits.
    Normal,
    /// Exposure above three quarters of the notional limit.
    Warning,
    /// Total profit and loss below the loss limit.
    LossLimit,
    /// Exposure above the notional limit.
    LimitBreach,
}

/// The state for the three limit checks, the notional limit first, then the
/// loss limit, then the warning level.
pub open spec fn spec_classify(exposure_over_limit: bool, loss_over_limit: bool, near_limit: bool) -> RiskState {
    if exposure_over_limit {
        RiskState::LimitBreach
    } else if loss_over_limit {
        RiskState::LossLimit
    } else if near_limit {
        RiskState::Warning
    } else {
        RiskState::Normal
    }
}

/// Classifies a snapshot from the outcome of its limit checks: whether the
/// notional exposure is above the notional limit, whether the total profit
/// and loss is below the loss limit, and whether the exposure is above the
/// warning share of the limit.
pub fn classify_risk(exposure_over_limit: bool, loss_over_limit: bool, near_limit: bool) -> (s: RiskState)
    ensures
        s == spec_classify(exposure_over_limit, loss_over_limit, near_limit),
{
    if exposure_over_limit {
        RiskState::LimitBreach
    } else if loss_over_limit {
        RiskState::LossLimit
    } else if near_limit {
        RiskState::Warning
    } else {
        RiskState::Normal
    }
}

impl RiskState {
    /// The label the engines publish.
    pub fn label(&self) -> (l: &'static str)
        ensures
            *self == RiskState::Normal ==> l@ == "OK"@,
            *self == RiskState::Warning ==> l@ == "WARNING"@,
            *self == RiskState::LossLimit ==> l@ == "LOSS_LIMIT"@,
            *self == RiskState::LimitBreach ==> l@ == "LIMIT_BREACH"@,
    {
        match self {
            RiskState::Normal => "OK",
            RiskState::Warning => "WARNING",
            RiskState::LossLimit => "LOSS_LIMIT",
            RiskState::LimitBreach => "LIMIT_BREACH",
        }
    }

    /// Whether the state counts as a warning.
    pub fn is_warning(&self) -> (b: bool)
        ensures
            b == (*self == RiskState::Warning),
    {
        match self {
            RiskState::Warning => true,
            _ => false,
        }
    }

    /// Whether the state counts as a breach (of either limit).
    pub fn is_breach(&self) -> (b: bool)
        ensures
            b == (*self == RiskState::LimitBreach || *self == RiskState::LossLimit),
    {
        match self {
            RiskState::LimitBreach | RiskState::LossLimit => true,
            _ => false,
        }
    }
}

/// Exposure above the notional limit is a breach whatever the other checks
/// say, and a snapshot is never both a warning and a breach.
pub proof fn lemma_breach_takes_precedence(loss_over_limit: bool, near_limit: bool)
    ensures
        spec_classify(true, loss_over_limit, near_limit) == RiskState::LimitBreach,
        forall|a: bool, b: bool, c: bool|
            #![trigger spec_classify(a, b, c)]
            !(spec_classify(a, b, c) == RiskState::Warning && (spec_classify(a, b, c) == RiskState::LimitBreach
                || spec_classify(a, b, c) == RiskState::LossLimit)),
        forall|c: bool| #[trigger] spec_classify(false, true, c) == RiskState::LossLimit,
{
}

/// When each risk state comes: a limit breach exactly when the exposure is
/// over its limit; a loss limit exactly when the loss is over its limit and
/// the exposure is not; a warning exactly when only the warning level is
/// passed; normal exactly when no check fires.
pub proof fn lemma_risk_state_cases(over: bool, loss: bool, near: bool)
    ensures
        (spec_classify(over, loss, near) == RiskState::LimitBreach) == over,
        (spec_classify(over, loss, near) == RiskState::LossLimit) == (!over && loss),
        (spec_classify(over, loss, near) == RiskState::Warning) == (!over && !loss && near),
        (spec_classify(over, loss, near) == RiskState::Normal) == (!over && !loss && !near),
{
}

} // verus!
