//! The order decision of the execution engines: which fill a strategy signal
//! produces, given the signal acted on last.
use crate::text::bytes_equal;
use vstd::string::StringSliceAdditionalSpecFns;
use vstd::prelude::*;

verus! {

/// A strategy signal.
#[derive(Clone, Copy, Debug, PartialEq, Eq, Structural)]
pub enum Signal {
    /// Hold a long position.
    Long,
    /// Hold a short position.
    Short,
    /// Hold no position.
    Flat,
}

/// The bytes of `"LONG"`.
pub open spec fn spec_long_label() -> Seq<u8> {
    seq![76u8, 79u8, 78u8, 71u8]
}

/// The bytes of `"SHORT"`.
pub open spec fn spec_short_label() -> Seq<u8> {
    seq![83u8, 72u8, 79u8, 82u8, 84u8]
}

/// The signal that a label with UTF-8 bytes `bytes` names.
pub open spec fn spec_signal_of(bytes: Seq<u8>) -> Signal {
    if bytes == spec_long_label() {
        Signal::Long
    } else if bytes == spec_short_label() {
        Signal::Short
    } else {
        Signal::Flat
    }
}

impl Signal {
    /// Reads a signal label as the strategy engine publishes it: `"LONG"`,
    /// `"SHORT"`, and anything else (`"FLAT"` among them) as flat.
    pub fn from_label(label: &str) -> (s: Signal)
        ensures
            s == spec_signal_of(label.spec_bytes()),
    {
        let bytes = label.as_bytes();
        let long: [u8; 4] = [76u8, 79u8, 78u8, 71u8];
        let short: [u8; 5] = [83u8, 72u8, 79u8, 82u8, 84u8];
        proof {
            assert(long@ =~= spec_long_label());
            assert(short@ =~= spec_short_label());
        }
        if bytes_equal(bytes, &long) {
            Signal::Long
        } else if bytes_equal(bytes, &short) {
            Signal::Short
        } else {
            Signal::Flat
        }
    }

    /// The label the strategy engines publish.
    pub fn label(&self) -> (l: &'static str)
        ensures
            *self == Signal::Long ==> l@ == "LONG"@,
            *self == Signal::Short ==> l@ == "SHORT"@,
            *self == Signal::Flat ==> l@ == "FLAT"@,
    {
        match self {
            Signal::Long => "LONG",
            Signal::Short => "SHORT",
            Signal::Flat => "FLAT",
        }
    }
}

/// The order an execution step sends.
#[derive(Clone, Copy, Debug, PartialEq, Eq, Structural)]
pub enum Fill {
    /// Buy one unit.
    Buy,
    /// Sell one unit.
    Sell,
    /// Send nothing.
    NoFill,
}

/// The fill for `signal` when `last` is the signal acted on last: a change
/// to long buys, a change to short sells, anything else sends nothing.
pub open spec fn spec_fill(signal: Signal, last: Signal) -> Fill {
    if signal == last {
        Fill::NoFill
    } else {
        match signal {
            Signal::Long => Fill::Buy,
            Signal::Short => Fill::Sell,
            Signal::Flat => Fill::NoFill,
        }
    }
}

impl Fill {
    /// The label the engines publish: `"BUY"`, `"SELL"` or `"NONE"`.
    pub fn label(&self) -> (l: &'static str)
        ensures
            *self == Fill::Buy ==> l@ == "BUY"@,
            *self == Fill::Sell ==> l@ == "SELL"@,
            *self == Fill::NoFill ==> l@ == "NONE"@,
    {
        match self {
            Fill::Buy => "BUY",
            Fill::Sell => "SELL",
            Fill::NoFill => "NONE",
        }
    }
}

/// Decides the fill for `signal` and records it as the signal acted on last.
pub fn execution_step(signal: Signal, last_signal: &mut Signal) -> (fill: Fill)
    ensures
        fill == spec_fill(signal, *old(last_signal)),
        *final(last_signal) == signal,
{
    if signal != *last_signal {
        let fill = match signal {
            Signal::Long => Fill::Buy,
            Signal::Short => Fill::Sell,
            Signal::Flat => Fill::NoFill,
        };
        *last_signal = signal;
        fill
    } else {
        Fill::NoFill
    }
}

/// The fills for a stream of signals, starting from `last`.
pub open spec fn spec_fills(signals: Seq<Signal>, last: Signal) -> Seq<Fill>
    decreases signals.len(),
{
    if signals.len() == 0 {
        Seq::empty()
    } else {
        seq![spec_fill(signals[0], last)] + spec_fills(signals.drop_first(), signals[0])
    }
}

/// A signal repeated right after it was acted on sends nothing.
pub proof fn lemma_repeat_sends_nothing(signal: Signal)
    ensures
        spec_fill(signal, signal) == Fill::NoFill,
{
}

/// A buy is sent exactly on a change to long, a sell exactly on a change to
/// short, and a flat signal never sends anything.
pub proof fn lemma_fill_cases(signal: Signal, last: Signal)
    ensures
        spec_fill(signal, last) == Fill::Buy <==> signal == Signal::Long && last != Signal::Long,
        spec_fill(signal, last) == Fill::Sell <==> signal == Signal::Short && last != Signal::Short,
        signal == Signal::Flat ==> spec_fill(signal, last) == Fill::NoFill,
{
}

/// Between two buys of a stream there is a signal other than long: a run of
/// long signals buys once.
pub proof fn lemma_run_of_longs_buys_once(signals: Seq<Signal>, last: Signal, i: int, j: int)
    requires
        0 <= i < j < signals.len(),
        forall|k: int| i <= k <= j ==> #[trigger] signals[k] == Signal::Long,
    ensures
        spec_fills(signals, last).len() == signals.len(),
        spec_fills(signals, last)[j] == Fill::NoFill,
    decreases signals.len(),
{
    lemma_fills_len(signals, last);
    if i > 0 {
        lemma_run_of_longs_buys_once(signals.drop_first(), signals[0], i - 1, j - 1);
    } else {
        lemma_fill_at(signals, last, j);
    }
}

/// The fill at position `k` of a stream is decided by the signal there and
/// the one before it.
pub proof fn lemma_fill_at(signals: Seq<Signal>, last: Signal, k: int)
    requires
        0 < k < signals.len(),
    ensures
        spec_fills(signals, last).len() == signals.len(),
        spec_fills(signals, last)[k] == spec_fill(signals[k], signals[k - 1]),
    decreases signals.len(),
{
    lemma_fills_len(signals, last);
    lemma_fills_len(signals.drop_first(), signals[0]);
    if k > 1 {
        lemma_fill_at(signals.drop_first(), signals[0], k - 1);
    }
}

/// There is one fill per signal.
pub proof fn lemma_fills_len(signals: Seq<Signal>, last: Signal)
    ensures
        spec_fills(signals, last).len() == signals.len(),
    decreases signals.len(),
{
    if signals.len() > 0 {
        lemma_fills_len(signals.drop_first(), signals[0]);
    }
}

/// Reading a published label gives back the signal: `from_label` undoes
/// `label`.
pub proof fn lemma_label_round_trip()
    ensures
        spec_signal_of("LONG".spec_bytes()) == Signal::Long,
        spec_signal_of("SHORT".spec_bytes()) == Signal::Short,
        spec_signal_of("FLAT".spec_bytes()) == Signal::Flat,
{
    reveal_strlit("LONG");
    reveal_strlit("SHORT");
    reveal_strlit("FLAT");
    vstd::string::is_ascii_spec_bytes("LONG");
    vstd::string::is_ascii_spec_bytes("SHORT");
    vstd::string::is_ascii_spec_bytes("FLAT");
    assert("LONG".spec_bytes() =~= spec_long_label());
    assert("SHORT".spec_bytes() =~= spec_short_label());
    assert("FLAT".spec_bytes().len() == 4);
    assert("FLAT".spec_bytes() != spec_long_label()) by {
        assert("FLAT".spec_bytes()[0] != spec_long_label()[0]);
    }
}

} // verus!
