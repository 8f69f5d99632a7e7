//! The decision rules of the strategies, over the outcomes of their threshold
//! checks (the checks themselves compare floating-point features and are made
//! by the callers).
use crate::execution::Signal;
use crate::regime::Regime;
use vstd::prelude::*;

verus! {

/// The live strategy's signal: long on a calm, tight, rising market that the
/// book supports; short on its mirror image; flat otherwise.
pub open spec fn spec_live_signal(
    low_vol: bool,
    spread_ok: bool,
    trend_up: bool,
    trend_down: bool,
    momentum_up: bool,
    momentum_down: bool,
    book_buy_support: bool,
    book_sell_support: bool,
) -> Signal {
    if low_vol && spread_ok && trend_up && momentum_up && book_buy_support {
        Signal::Long
    } else if low_vol && spread_ok && trend_down && momentum_down && book_sell_support {
        Signal::Short
    } else {
        Signal::Flat
    }
}

/// Decides the live strategy's signal from its checks: volatility below its
/// cap, spread below its share of the price, short average above (or below)
/// the long one, five-bar return above (or below) its threshold, and order
/// book imbalance towards buyers (or sellers).
pub fn live_signal(
    low_vol: bool,
    spread_ok: bool,
    trend_up: bool,
    trend_down: bool,
    momentum_up: bool,
    momentum_down: bool,
    book_buy_support: bool,
    book_sell_support: bool,
) -> (s: Signal)
    ensures
        s == spec_live_signal(
            low_vol,
            spread_ok,
            trend_up,
            trend_down,
            momentum_up,
            momentum_down,
            book_buy_support,
            book_sell_support,
        ),
{
    if low_vol && spread_ok && trend_up && momentum_up && book_buy_support {
        Signal::Long
    } else if low_vol && spread_ok && trend_down && momentum_down && book_sell_support {
        Signal::Short
    } else {
        Signal::Flat
    }
}

/// The research backtest's signal: long on a calm uptrend with momentum, or
/// on a recovery within a bull market, as long as the last bar is not a
/// crash; flat otherwise. It never goes short.
pub open spec fn spec_backtest_signal(
    not_crashing: bool,
    low_vol: bool,
    uptrend: bool,
    positive_momentum: bool,
    bull_market: bool,
    recovery_market: bool,
) -> Signal {
    if not_crashing && low_vol && uptrend && positive_momentum {
        Signal::Long
    } else if not_crashing && bull_market && recovery_market {
        Signal::Long
    } else {
        Signal::Flat
    }
}

/// Decides the research backtest's signal from its checks.
pub fn backtest_signal(
    not_crashing: bool,
    low_vol: bool,
    uptrend: bool,
    positive_momentum: bool,
    bull_market: bool,
    recovery_market: bool,
) -> (s: Signal)
    ensures
        s == spec_backtest_signal(
            not_crashing,
            low_vol,
            uptrend,
            positive_momentum,
            bull_market,
            recovery_market,
        ),
{
    if not_crashing && low_vol && uptrend && positive_momentum {
        Signal::Long
    } else if not_crashing && bull_market && recovery_market {
        Signal::Long
    } else {
        Signal::Flat
    }
}

/// The live strategy never signals both ways: a long signal needs the short
/// average above the long one, a short signal needs it below.
pub proof fn lemma_live_signal_follows_trend(
    low_vol: bool,
    spread_ok: bool,
    trend_up: bool,
    trend_down: bool,
    momentum_up: bool,
    momentum_down: bool,
    book_buy_support: bool,
    book_sell_support: bool,
)
    ensures
        spec_live_signal(
            low_vol,
            spread_ok,
            trend_up,
            trend_down,
            momentum_up,
            momentum_down,
            book_buy_support,
            book_sell_support,
        ) == Signal::Long ==> trend_up && momentum_up && book_buy_support,
        spec_live_signal(
            low_vol,
            spread_ok,
            trend_up,
            trend_down,
            momentum_up,
            momentum_down,
            book_buy_support,
            book_sell_support,
        ) == Signal::Short ==> trend_down && momentum_down && book_sell_support,
        !low_vol || !spread_ok ==> spec_live_signal(
            low_vol,
            spread_ok,
            trend_up,
            trend_down,
            momentum_up,
            momentum_down,
            book_buy_support,
            book_sell_support,
        ) == Signal::Flat,
{
}

/// The market regime that the feature engine attaches to a snapshot.
#[derive(Clone, Copy, Debug, PartialEq, Eq, Structural)]
pub enum MarketRegime {
    /// Volatility above its cap.
    HighVol,
    /// A trend that the order book confirms.
    TrendingConfirmed,
    /// A trend without the book's confirmation.
    Trending,
    /// Neither.
    RangeBound,
}

/// The regime for the checks: volatility above its cap first, then a trend
/// (confirmed by a lopsided book or not).
pub open spec fn spec_market_regime(high_vol: bool, trending: bool, book_confirms: bool) -> MarketRegime {
    if high_vol {
        MarketRegime::HighVol
    } else if trending && book_confirms {
        MarketRegime::TrendingConfirmed
    } else if trending {
        MarketRegime::Trending
    } else {
        MarketRegime::RangeBound
    }
}

/// Classifies a feature snapshot from its checks: volatility above its cap,
/// trend strength above its threshold, order book imbalance above its
/// threshold (in size, either way).
pub fn market_regime(high_vol: bool, trending: bool, book_confirms: bool) -> (r: MarketRegime)
    ensures
        r == spec_market_regime(high_vol, trending, book_confirms),
{
    if high_vol {
        MarketRegime::HighVol
    } else if trending && book_confirms {
        MarketRegime::TrendingConfirmed
    } else if trending {
        MarketRegime::Trending
    } else {
        MarketRegime::RangeBound
    }
}

impl MarketRegime {
    /// The label the feature engine publishes.
    pub fn label(&self) -> (l: &'static str)
        ensures
            *self == MarketRegime::HighVol ==> l@ == "HIGH_VOL"@,
            *self == MarketRegime::TrendingConfirmed ==> l@ == "TRENDING_CONFIRMED"@,
            *self == MarketRegime::Trending ==> l@ == "TRENDING"@,
            *self == MarketRegime::RangeBound ==> l@ == "RANGE_BOUND"@,
    {
        match self {
            MarketRegime::HighVol => "HIGH_VOL",
            MarketRegime::TrendingConfirmed => "TRENDING_CONFIRMED",
            MarketRegime::Trending => "TRENDING",
            MarketRegime::RangeBound => "RANGE_BOUND",
        }
    }
}

/// The benchmark regime: bull above the long average unless the quarter's
/// return has fallen through its floor, crash below the average with the
/// quarter's return under the crash level, defensive otherwise.
pub open spec fn spec_benchmark_regime(
    above_average: bool,
    quarter_above_floor: bool,
    below_average: bool,
    quarter_below_crash: bool,
) -> Regime {
    if above_average && quarter_above_floor {
        Regime::Bull
    } else if below_average && quarter_below_crash {
        Regime::Crash
    } else {
        Regime::Defensive
    }
}

/// Decides the benchmark regime from its checks: price above (below) its
/// 200-day average, 63-day return above the bull floor (below the crash
/// level).
pub fn benchmark_regime(
    above_average: bool,
    quarter_above_floor: bool,
    below_average: bool,
    quarter_below_crash: bool,
) -> (r: Regime)
    ensures
        r == spec_benchmark_regime(above_average, quarter_above_floor, below_average, quarter_below_crash),
{
    if above_average && quarter_above_floor {
        Regime::Bull
    } else if below_average && quarter_below_crash {
        Regime::Crash
    } else {
        Regime::Defensive
    }
}

/// A crash needs the benchmark below its average, and a bull market needs it
/// above: a price that is neither (on the average) is defensive.
pub proof fn lemma_regime_needs_side_of_average(quarter_above_floor: bool, quarter_below_crash: bool)
    ensures
        spec_benchmark_regime(false, quarter_above_floor, false, quarter_below_crash) == Regime::Defensive,
        forall|a: bool, f: bool, b: bool, c: bool|
            #[trigger] spec_benchmark_regime(a, f, b, c) == Regime::Crash ==> b && c,
        forall|a: bool, f: bool, b: bool, c: bool|
            #[trigger] spec_benchmark_regime(a, f, b, c) == Regime::Bull ==> a && f,
{
}

/// When each live signal comes: long exactly on a calm, tight, rising,
/// book-supported market; short exactly on its falling mirror image when it
/// is not also long; flat otherwise.
pub proof fn lemma_live_signal_cases(
    lv: bool,
    sp: bool,
    up: bool,
    down: bool,
    mu: bool,
    md: bool,
    buy: bool,
    sell: bool,
)
    ensures
        (spec_live_signal(lv, sp, up, down, mu, md, buy, sell) == Signal::Long) == (lv && sp && up && mu
            && buy),
        (spec_live_signal(lv, sp, up, down, mu, md, buy, sell) == Signal::Short) == (!(lv && sp && up && mu
            && buy) && lv && sp && down && md && sell),
{
}

/// When the research backtest goes long: not crashing, and either a calm
/// uptrend with momentum or a recovery within a bull market. It never goes
/// short, and without calm volatility and without a bull market it stays
/// flat.
pub proof fn lemma_backtest_signal_cases(nc: bool, lv: bool, up: bool, pm: bool, bull: bool, rec: bool)
    ensures
        (spec_backtest_signal(nc, lv, up, pm, bull, rec) == Signal::Long) == (nc && ((lv && up && pm) || (
        bull && rec))),
        spec_backtest_signal(nc, lv, up, pm, bull, rec) != Signal::Short,
        !lv && !bull ==> spec_backtest_signal(nc, lv, up, pm, bull, rec) == Signal::Flat,
        !nc ==> spec_backtest_signal(nc, lv, up, pm, bull, rec) == Signal::Flat,
{
}

/// Volatility above its cap decides the regime on its own; below it the
/// regime is trending (confirmed exactly when the book confirms) or range
/// bound exactly when there is no trend.
pub proof fn lemma_market_regime_cases(high_vol: bool, trending: bool, book_confirms: bool)
    ensures
        high_vol ==> spec_market_regime(high_vol, trending, book_confirms) == MarketRegime::HighVol,
        (spec_market_regime(high_vol, trending, book_confirms) == MarketRegime::HighVol) == high_vol,
        !high_vol ==> (spec_market_regime(high_vol, trending, book_confirms)
            == MarketRegime::TrendingConfirmed) == (trending && book_confirms),
        !high_vol ==> (spec_market_regime(high_vol, trending, book_confirms) == MarketRegime::Trending) == (
        trending && !book_confirms),
        (spec_market_regime(high_vol, trending, book_confirms) == MarketRegime::RangeBound) == (!high_vol
            && !trending),
{
}

/// When each benchmark regime comes: bull exactly above the average with the
/// quarter above its floor; crash exactly below the average with the quarter
/// under the crash level (when not bull); defensive otherwise.
pub proof fn lemma_benchmark_regime_cases(above: bool, floor_ok: bool, below: bool, crash: bool)
    ensures
        (spec_benchmark_regime(above, floor_ok, below, crash) == Regime::Bull) == (above && floor_ok),
        (spec_benchmark_regime(above, floor_ok, below, crash) == Regime::Crash) == (!(above && floor_ok)
            && below && crash),
        (spec_benchmark_regime(above, floor_ok, below, crash) == Regime::Defensive) == (!(above && floor_ok)
            && !(below && crash)),
{
}

} // verus!
