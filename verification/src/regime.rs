//! The rules of the regime-adaptive defensive momentum strategy that do not
//! depend on prices: which assets a market regime may hold, how many, and on
//! which bars the portfolio is rebalanced.
use crate::text::bytes_equal;
use vstd::prelude::*;
use vstd::string::StringSliceAdditionalSpecFns;

verus! {

/// First bar of the strategy: a year of history is needed before it starts.
pub const FIRST_TRADING_BAR: usize = 252;

/// Rebalancing period in bars (about a month of trading days).
pub const REBALANCE_PERIOD: usize = 21;

/// The market regime read from the benchmark.
#[derive(Clone, Copy, Debug, PartialEq, Eq, Structural)]
pub enum Regime {
    /// Benchmark above its long average and not falling fast.
    Bull,
    /// Benchmark below its long average and falling fast.
    Crash,
    /// Anything else.
    Defensive,
}

/// An asset of the universe.
#[derive(Clone, Copy, Debug, PartialEq, Eq, Structural)]
pub enum Asset {
    /// S&P 500 ETF (`"SPY"`).
    Spy,
    /// Nasdaq-100 ETF (`"QQQ"`).
    Qqq,
    /// Russell 2000 ETF (`"IWM"`).
    Iwm,
    /// Long Treasury ETF (`"TLT"`).
    Tlt,
    /// Gold ETF (`"GLD"`).
    Gld,
    /// Commodities ETF (`"DBC"`).
    Dbc,
    /// US dollar ETF (`"UUP"`).
    Uup,
    /// Bitcoin (`"BTC"`).
    Btc,
    /// Any other symbol.
    Other,
}

/// The asset that a ticker symbol (as bytes) names.
pub open spec fn spec_asset_of(symbol: Seq<u8>) -> Asset {
    if symbol == seq![83u8, 80u8, 89u8] {
        Asset::Spy
    } else if symbol == seq![81u8, 81u8, 81u8] {
        Asset::Qqq
    } else if symbol == seq![73u8, 87u8, 77u8] {
        Asset::Iwm
    } else if symbol == seq![84u8, 76u8, 84u8] {
        Asset::Tlt
    } else if symbol == seq![71u8, 76u8, 68u8] {
        Asset::Gld
    } else if symbol == seq![68u8, 66u8, 67u8] {
        Asset::Dbc
    } else if symbol == seq![85u8, 85u8, 80u8] {
        Asset::Uup
    } else if symbol == seq![66u8, 84u8, 67u8] {
        Asset::Btc
    } else {
        Asset::Other
    }
}

impl Asset {
    /// The asset a ticker symbol names: `"SPY"`, `"QQQ"`, `"IWM"`, `"TLT"`,
    /// `"GLD"`, `"DBC"`, `"UUP"`, `"BTC"`, or another asset.
    pub fn from_symbol(symbol: &str) -> (a: Asset)
        ensures
            a == spec_asset_of(symbol.spec_bytes()),
    {
        let b = symbol.as_bytes();
        let spy: [u8; 3] = [83u8, 80u8, 89u8];
        let qqq: [u8; 3] = [81u8, 81u8, 81u8];
        let iwm: [u8; 3] = [73u8, 87u8, 77u8];
        let tlt: [u8; 3] = [84u8, 76u8, 84u8];
        let gld: [u8; 3] = [71u8, 76u8, 68u8];
        let dbc: [u8; 3] = [68u8, 66u8, 67u8];
        let uup: [u8; 3] = [85u8, 85u8, 80u8];
        let btc: [u8; 3] = [66u8, 84u8, 67u8];
        proof {
            assert(spy@ =~= seq![83u8, 80u8, 89u8]);
            assert(qqq@ =~= seq![81u8, 81u8, 81u8]);
            assert(iwm@ =~= seq![73u8, 87u8, 77u8]);
            assert(tlt@ =~= seq![84u8, 76u8, 84u8]);
            assert(gld@ =~= seq![71u8, 76u8, 68u8]);
            assert(dbc@ =~= seq![68u8, 66u8, 67u8]);
            assert(uup@ =~= seq![85u8, 85u8, 80u8]);
            assert(btc@ =~= seq![66u8, 84u8, 67u8]);
        }
        if bytes_equal(b, &spy) {
            Asset::Spy
        } else if bytes_equal(b, &qqq) {
            Asset::Qqq
        } else if bytes_equal(b, &iwm) {
            Asset::Iwm
        } else if bytes_equal(b, &tlt) {
            Asset::Tlt
        } else if bytes_equal(b, &gld) {
            Asset::Gld
        } else if bytes_equal(b, &dbc) {
            Asset::Dbc
        } else if bytes_equal(b, &uup) {
            Asset::Uup
        } else if bytes_equal(b, &btc) {
            Asset::Btc
        } else {
            Asset::Other
        }
    }
}

/// The defensive assets.
pub open spec fn spec_is_defensive(a: Asset) -> bool {
    a == Asset::Tlt || a == Asset::Gld || a == Asset::Uup
}

/// The aggressive assets.
pub open spec fn spec_is_aggressive(a: Asset) -> bool {
    a == Asset::Spy || a == Asset::Qqq || a == Asset::Iwm || a == Asset::Dbc || a == Asset::Gld
        || a == Asset::Btc
}

/// Whether `regime` may hold `a`: in a bull market any aggressive or
/// defensive asset, in a crash only defensive ones, otherwise the defensive
/// ones and the two broad equity ETFs.
pub open spec fn spec_asset_allowed(regime: Regime, a: Asset) -> bool {
    match regime {
        Regime::Bull => spec_is_aggressive(a) || spec_is_defensive(a),
        Regime::Crash => spec_is_defensive(a),
        Regime::Defensive => spec_is_defensive(a) || a == Asset::Spy || a == Asset::Qqq,
    }
}

/// Whether `a` is a defensive asset.
pub fn is_defensive(a: Asset) -> (b: bool)
    ensures
        b == spec_is_defensive(a),
{
    match a {
        Asset::Tlt | Asset::Gld | Asset::Uup => true,
        _ => false,
    }
}

/// Whether `a` is an aggressive asset.
pub fn is_aggressive(a: Asset) -> (b: bool)
    ensures
        b == spec_is_aggressive(a),
{
    match a {
        Asset::Spy | Asset::Qqq | Asset::Iwm | Asset::Dbc | Asset::Gld | Asset::Btc => true,
        _ => false,
    }
}

/// Whether a portfolio in `regime` may hold `a`.
pub fn asset_allowed(regime: Regime, a: Asset) -> (b: bool)
    ensures
        b == spec_asset_allowed(regime, a),
{
    match regime {
        Regime::Bull => is_aggressive(a) || is_defensive(a),
        Regime::Crash => is_defensive(a),
        Regime::Defensive => is_defensive(a) || a == Asset::Spy || a == Asset::Qqq,
    }
}

/// How many of the best-scoring allowed assets `regime` holds: three in a
/// bull market, two otherwise.
pub fn holding_count(regime: Regime) -> (n: usize)
    ensures
        regime == Regime::Bull ==> n == 3,
        regime != Regime::Bull ==> n == 2,
{
    match regime {
        Regime::Bull => 3,
        _ => 2,
    }
}

/// Whether the portfolio is rebalanced on bar `idx`: on the first trading bar
/// and on every bar that is a multiple of the rebalancing period.
pub fn is_rebalance_day(idx: usize) -> (b: bool)
    ensures
        b == (idx == FIRST_TRADING_BAR || idx % REBALANCE_PERIOD == 0),
{
    idx == FIRST_TRADING_BAR || idx % REBALANCE_PERIOD == 0
}

/// How many of the research checks hold.
pub open spec fn spec_passed(checks: Seq<bool>) -> nat
    decreases checks.len(),
{
    if checks.len() == 0 {
        0
    } else {
        spec_passed(checks.drop_last()) + if checks.last() { 1nat } else { 0nat }
    }
}

/// How many comparisons with the benchmarks a strategy has to win for its
/// research result to be accepted.
pub const MIN_PASSED_CHECKS: usize = 4;

/// Whether a research result is accepted: at least `MIN_PASSED_CHECKS` of
/// its comparisons with the benchmarks hold.
pub fn research_checks_pass(checks: &[bool]) -> (pass: bool)
    ensures
        pass == (spec_passed(checks@) >= MIN_PASSED_CHECKS),
{
    let mut passed: usize = 0;
    let mut i: usize = 0;
    while i < checks.len()
        invariant
            0 <= i <= checks@.len(),
            passed == spec_passed(checks@.take(i as int)),
            passed <= i,
        decreases checks@.len() - i,
    {
        proof {
            assert(checks@.take(i as int + 1).drop_last() =~= checks@.take(i as int));
        }
        if checks[i] {
            passed = passed + 1;
        }
        i = i + 1;
    }
    proof {
        assert(checks@.take(checks@.len() as int) =~= checks@);
    }
    passed >= MIN_PASSED_CHECKS
}

/// A crash portfolio holds only what a defensive portfolio may hold, and a
/// defensive portfolio only what a bull portfolio may hold.
pub proof fn lemma_regimes_nested(a: Asset)
    ensures
        spec_asset_allowed(Regime::Crash, a) ==> spec_asset_allowed(Regime::Defensive, a),
        spec_asset_allowed(Regime::Defensive, a) ==> spec_asset_allowed(Regime::Bull, a),
        !spec_asset_allowed(Regime::Bull, Asset::Other),
{
}

/// The first rebalancing bar at or after `idx` (by the period rule).
pub open spec fn spec_next_rebalance(idx: nat) -> nat {
    let r = idx % (REBALANCE_PERIOD as nat);
    if r == 0 {
        idx
    } else {
        (idx + (REBALANCE_PERIOD - r)) as nat
    }
}

/// Every bar is followed, within one period, by a rebalancing bar: the
/// portfolio is never left alone for a full period.
pub proof fn lemma_rebalance_within_period(idx: nat)
    ensures
        idx <= spec_next_rebalance(idx) < idx + REBALANCE_PERIOD,
        spec_next_rebalance(idx) % (REBALANCE_PERIOD as nat) == 0,
{
}

/// Counting the passed checks counts every check: none for no checks, and
/// one more for each further check that holds.
pub proof fn lemma_passed_counts_each_check(checks: Seq<bool>, b: bool)
    ensures
        spec_passed(Seq::<bool>::empty()) == 0,
        spec_passed(checks.push(b)) == spec_passed(checks) + if b { 1nat } else { 0nat },
        spec_passed(checks) <= checks.len(),
{
    assert(checks.push(b).drop_last() =~= checks);
    lemma_passed_bounded(checks);
}

proof fn lemma_passed_bounded(checks: Seq<bool>)
    ensures
        spec_passed(checks) <= checks.len(),
    decreases checks.len(),
{
    if checks.len() > 0 {
        lemma_passed_bounded(checks.drop_last());
    }
}

/// Every position of the checks counts alike: changing the check at `i` to
/// `b` changes the count by exactly what was there and what is put there.
pub proof fn lemma_passed_every_position(checks: Seq<bool>, i: int, b: bool)
    requires
        0 <= i < checks.len(),
    ensures
        spec_passed(checks.update(i, b)) + (if checks[i] { 1nat } else { 0nat }) == spec_passed(checks) + (
        if b { 1nat } else { 0nat }),
    decreases checks.len(),
{
    let n = checks.len() - 1;
    let u = checks.update(i, b);
    if i == n {
        assert(u.drop_last() =~= checks.drop_last());
    } else {
        assert(u.drop_last() =~= checks.drop_last().update(i, b));
        lemma_passed_every_position(checks.drop_last(), i, b);
    }
}

/// All checks passing counts them all; a check list with all checks passing
/// but one (wherever it stands) counts one fewer.
pub proof fn lemma_passed_all_but_one(n: nat, i: int)
    requires
        0 <= i < n,
    ensures
        spec_passed(Seq::new(n, |j: int| true)) == n,
        spec_passed(Seq::new(n, |j: int| true).update(i, false)) == n - 1,
    decreases n,
{
    lemma_passed_all_true(n);
    lemma_passed_every_position(Seq::new(n, |j: int| true), i, false);
}

proof fn lemma_passed_all_true(n: nat)
    ensures
        spec_passed(Seq::new(n, |j: int| true)) == n,
    decreases n,
{
    if n > 0 {
        assert(Seq::new(n, |j: int| true).drop_last() =~= Seq::new((n - 1) as nat, |j: int| true));
        lemma_passed_all_true((n - 1) as nat);
    }
}

/// What each regime may hold: a crash portfolio exactly the defensive assets
/// TLT, GLD and UUP (no equity ETF); a defensive portfolio those and SPY and
/// QQQ; a bull portfolio every named asset of the universe.
pub proof fn lemma_allowed_assets(a: Asset)
    ensures
        spec_asset_allowed(Regime::Crash, a) == (a == Asset::Tlt || a == Asset::Gld || a == Asset::Uup),
        spec_asset_allowed(Regime::Defensive, a) == (a == Asset::Tlt || a == Asset::Gld || a == Asset::Uup
            || a == Asset::Spy || a == Asset::Qqq),
        spec_asset_allowed(Regime::Bull, a) == (a != Asset::Other),
        !spec_asset_allowed(Regime::Crash, Asset::Spy),
        !spec_asset_allowed(Regime::Crash, Asset::Qqq),
        !spec_asset_allowed(Regime::Crash, Asset::Iwm),
{
}

/// Each ticker symbol of the universe names its own asset, and a symbol is
/// read by its exact bytes: lower case names no asset.
pub proof fn lemma_symbols_name_assets()
    ensures
        spec_asset_of("SPY".spec_bytes()) == Asset::Spy,
        spec_asset_of("QQQ".spec_bytes()) == Asset::Qqq,
        spec_asset_of("IWM".spec_bytes()) == Asset::Iwm,
        spec_asset_of("TLT".spec_bytes()) == Asset::Tlt,
        spec_asset_of("GLD".spec_bytes()) == Asset::Gld,
        spec_asset_of("DBC".spec_bytes()) == Asset::Dbc,
        spec_asset_of("UUP".spec_bytes()) == Asset::Uup,
        spec_asset_of("BTC".spec_bytes()) == Asset::Btc,
        spec_asset_of("spy".spec_bytes()) == Asset::Other,
{
    reveal_strlit("SPY");
    vstd::string::is_ascii_spec_bytes("SPY");
    assert("SPY".spec_bytes() =~= seq![83u8, 80u8, 89u8]);
    reveal_strlit("QQQ");
    vstd::string::is_ascii_spec_bytes("QQQ");
    assert("QQQ".spec_bytes() =~= seq![81u8, 81u8, 81u8]);
    reveal_strlit("IWM");
    vstd::string::is_ascii_spec_bytes("IWM");
    assert("IWM".spec_bytes() =~= seq![73u8, 87u8, 77u8]);
    reveal_strlit("TLT");
    vstd::string::is_ascii_spec_bytes("TLT");
    assert("TLT".spec_bytes() =~= seq![84u8, 76u8, 84u8]);
    reveal_strlit("GLD");
    vstd::string::is_ascii_spec_bytes("GLD");
    assert("GLD".spec_bytes() =~= seq![71u8, 76u8, 68u8]);
    reveal_strlit("DBC");
    vstd::string::is_ascii_spec_bytes("DBC");
    assert("DBC".spec_bytes() =~= seq![68u8, 66u8, 67u8]);
    reveal_strlit("UUP");
    vstd::string::is_ascii_spec_bytes("UUP");
    assert("UUP".spec_bytes() =~= seq![85u8, 85u8, 80u8]);
    reveal_strlit("BTC");
    vstd::string::is_ascii_spec_bytes("BTC");
    assert("BTC".spec_bytes() =~= seq![66u8, 84u8, 67u8]);
    reveal_strlit("spy");
    vstd::string::is_ascii_spec_bytes("spy");
    assert("spy".spec_bytes()[0] == 115u8);
}

} // verus!
