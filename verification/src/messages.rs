//! The messages that the services publish to one another (strategy signals,
//! fills, risk snapshots, features, ticks and published books), read into
//! records.
//!
//! Numbers stay in the form `serde_json` prints them; a number member that
//! is missing, or not a number, reads as `None`. A text member that is
//! missing, or not a string, reads as the default the receiving service
//! uses.
use crate::execution::{spec_signal_of, Signal};
use crate::json::{
    elements, field, number, parse_document, spec_elements, spec_field, spec_number,
    spec_item, spec_opt, spec_opt_text, spec_parse_json, spec_text_or, text_or, Json,
};
use vstd::prelude::*;
use vstd::utf8::encode_utf8;

verus! {

/// The number member `key` of `d`.
pub open spec fn spec_number_at(d: Option<Json>, key: Seq<char>) -> Option<Seq<char>> {
    spec_number(spec_field(d, key))
}

/// The text member `key` of `d`, or `default`.
pub open spec fn spec_text_at(d: Option<Json>, key: Seq<char>, default: Seq<char>) -> Seq<char> {
    spec_text_or(spec_field(d, key), default)
}

fn number_at(d: Option<&Json>, key: &str) -> (s: Option<String>)
    ensures
        spec_opt_text(s) == spec_number_at(spec_opt(d), key@),
{
    number(field(d, key))
}

fn text_at(d: Option<&Json>, key: &str, default: &str) -> (s: String)
    ensures
        s@ == spec_text_at(spec_opt(d), key@, default@),
{
    text_or(field(d, key), default)
}

/// A strategy signal as published on `strategy:signals`.
pub struct SignalMessage {
    /// The signal that `label` names.
    pub signal: Signal,
    /// The signal label; `"FLAT"` where missing.
    pub label: String,
    pub price: Option<String>,
    pub short_ma: Option<String>,
    pub long_ma: Option<String>,
    /// `""` where missing.
    pub timestamp: String,
}

/// `m` is what the document `doc` says as a signal message.
pub open spec fn spec_signal_message(m: SignalMessage, doc: Json) -> bool {
    let d = Some(doc);
    &&& m.label@ == spec_text_at(d, "signal"@, "FLAT"@)
    &&& m.signal == spec_signal_of(encode_utf8(m.label@))
    &&& spec_opt_text(m.price) == spec_number_at(d, "price"@)
    &&& spec_opt_text(m.short_ma) == spec_number_at(d, "short_ma"@)
    &&& spec_opt_text(m.long_ma) == spec_number_at(d, "long_ma"@)
    &&& m.timestamp@ == spec_text_at(d, "timestamp"@, ""@)
}

/// Reads a parsed signal message.
pub fn signal_message_of(doc: &Json) -> (m: SignalMessage)
    ensures
        spec_signal_message(m, *doc),
{
    let d = Some(doc);
    let label = text_at(d, "signal", "FLAT");
    let signal = Signal::from_label(label.as_str());
    SignalMessage {
        signal,
        label,
        price: number_at(d, "price"),
        short_ma: number_at(d, "short_ma"),
        long_ma: number_at(d, "long_ma"),
        timestamp: text_at(d, "timestamp", ""),
    }
}

/// Reads a signal message; `None` where `text` is not JSON.
pub fn decode_signal_message(text: &str) -> (r: Option<SignalMessage>)
    ensures
        match r {
            Some(m) => spec_parse_json(text@) matches Some(doc) && spec_signal_message(m, doc),
            None => spec_parse_json(text@) is None,
        },
{
    match parse_document(text) {
        Some(doc) => Some(signal_message_of(&doc)),
        None => None,
    }
}

/// A fill report as published on `execution:fills`.
pub struct FillMessage {
    /// `"FLAT"` where missing.
    pub signal: String,
    /// `"NONE"` where missing.
    pub fill: String,
    pub qty: Option<String>,
    pub avg_price: Option<String>,
    pub mark: Option<String>,
    pub realized_pnl: Option<String>,
    pub unrealized_pnl: Option<String>,
    /// `""` where missing.
    pub timestamp: String,
}

/// `m` is what the document `doc` says as a fill report.
pub open spec fn spec_fill_message(m: FillMessage, doc: Json) -> bool {
    let d = Some(doc);
    &&& m.signal@ == spec_text_at(d, "signal"@, "FLAT"@)
    &&& m.fill@ == spec_text_at(d, "fill"@, "NONE"@)
    &&& spec_opt_text(m.qty) == spec_number_at(d, "qty"@)
    &&& spec_opt_text(m.avg_price) == spec_number_at(d, "avg_price"@)
    &&& spec_opt_text(m.mark) == spec_number_at(d, "mark"@)
    &&& spec_opt_text(m.realized_pnl) == spec_number_at(d, "realized_pnl"@)
    &&& spec_opt_text(m.unrealized_pnl) == spec_number_at(d, "unrealized_pnl"@)
    &&& m.timestamp@ == spec_text_at(d, "timestamp"@, ""@)
}

/// Reads a parsed fill report.
pub fn fill_message_of(doc: &Json) -> (m: FillMessage)
    ensures
        spec_fill_message(m, *doc),
{
    let d = Some(doc);
    FillMessage {
        signal: text_at(d, "signal", "FLAT"),
        fill: text_at(d, "fill", "NONE"),
        qty: number_at(d, "qty"),
        avg_price: number_at(d, "avg_price"),
        mark: number_at(d, "mark"),
        realized_pnl: number_at(d, "realized_pnl"),
        unrealized_pnl: number_at(d, "unrealized_pnl"),
        timestamp: text_at(d, "timestamp", ""),
    }
}

/// Reads a fill report; `None` where `text` is not JSON.
pub fn decode_fill_message(text: &str) -> (r: Option<FillMessage>)
    ensures
        match r {
            Some(m) => spec_parse_json(text@) matches Some(doc) && spec_fill_message(m, doc),
            None => spec_parse_json(text@) is None,
        },
{
    match parse_document(text) {
        Some(doc) => Some(fill_message_of(&doc)),
        None => None,
    }
}

/// A risk snapshot as published on `risk:snapshots`.
pub struct RiskMessage {
    /// `"OK"` where missing.
    pub risk_state: String,
    pub qty: Option<String>,
    pub mark: Option<String>,
    pub notional_exposure: Option<String>,
    pub exposure_utilization: Option<String>,
    pub realized_pnl: Option<String>,
    pub unrealized_pnl: Option<String>,
    pub total_pnl: Option<String>,
    pub var_95: Option<String>,
    pub expected_shortfall: Option<String>,
}

/// `m` is what the document `doc` says as a risk snapshot.
pub open spec fn spec_risk_message(m: RiskMessage, doc: Json) -> bool {
    let d = Some(doc);
    &&& m.risk_state@ == spec_text_at(d, "risk_state"@, "OK"@)
    &&& spec_opt_text(m.qty) == spec_number_at(d, "qty"@)
    &&& spec_opt_text(m.mark) == spec_number_at(d, "mark"@)
    &&& spec_opt_text(m.notional_exposure) == spec_number_at(d, "notional_exposure"@)
    &&& spec_opt_text(m.exposure_utilization) == spec_number_at(d, "exposure_utilization"@)
    &&& spec_opt_text(m.realized_pnl) == spec_number_at(d, "realized_pnl"@)
    &&& spec_opt_text(m.unrealized_pnl) == spec_number_at(d, "unrealized_pnl"@)
    &&& spec_opt_text(m.total_pnl) == spec_number_at(d, "total_pnl"@)
    &&& spec_opt_text(m.var_95) == spec_number_at(d, "var_95"@)
    &&& spec_opt_text(m.expected_shortfall) == spec_number_at(d, "expected_shortfall"@)
}

/// Reads a parsed risk snapshot.
pub fn risk_message_of(doc: &Json) -> (m: RiskMessage)
    ensures
        spec_risk_message(m, *doc),
{
    let d = Some(doc);
    RiskMessage {
        risk_state: text_at(d, "risk_state", "OK"),
        qty: number_at(d, "qty"),
        mark: number_at(d, "mark"),
        notional_exposure: number_at(d, "notional_exposure"),
        exposure_utilization: number_at(d, "exposure_utilization"),
        realized_pnl: number_at(d, "realized_pnl"),
        unrealized_pnl: number_at(d, "unrealized_pnl"),
        total_pnl: number_at(d, "total_pnl"),
        var_95: number_at(d, "var_95"),
        expected_shortfall: number_at(d, "expected_shortfall"),
    }
}

/// Reads a risk snapshot; `None` where `text` is not JSON.
pub fn decode_risk_message(text: &str) -> (r: Option<RiskMessage>)
    ensures
        match r {
            Some(m) => spec_parse_json(text@) matches Some(doc) && spec_risk_message(m, doc),
            None => spec_parse_json(text@) is None,
        },
{
    match parse_document(text) {
        Some(doc) => Some(risk_message_of(&doc)),
        None => None,
    }
}

/// A feature snapshot as published on `features:latest`.
pub struct FeatureMessage {
    pub price: String,
    pub return_1: Option<String>,
    pub return_5: Option<String>,
    pub volatility_20: Option<String>,
    pub short_ma: Option<String>,
    pub long_ma: Option<String>,
    pub trend_strength: Option<String>,
    pub spread: Option<String>,
    pub orderbook_imbalance: Option<String>,
    pub microprice: Option<String>,
    /// `"UNKNOWN"` where missing.
    pub regime: String,
    /// `""` where missing.
    pub timestamp: String,
}

/// `m` is what the document `doc` says as a feature snapshot.
pub open spec fn spec_feature_message(m: FeatureMessage, doc: Json) -> bool {
    let d = Some(doc);
    &&& spec_number_at(d, "price"@) == Some(m.price@)
    &&& spec_opt_text(m.return_1) == spec_number_at(d, "return_1"@)
    &&& spec_opt_text(m.return_5) == spec_number_at(d, "return_5"@)
    &&& spec_opt_text(m.volatility_20) == spec_number_at(d, "volatility_20"@)
    &&& spec_opt_text(m.short_ma) == spec_number_at(d, "short_ma"@)
    &&& spec_opt_text(m.long_ma) == spec_number_at(d, "long_ma"@)
    &&& spec_opt_text(m.trend_strength) == spec_number_at(d, "trend_strength"@)
    &&& spec_opt_text(m.spread) == spec_number_at(d, "spread"@)
    &&& spec_opt_text(m.orderbook_imbalance) == spec_number_at(d, "orderbook_imbalance"@)
    &&& spec_opt_text(m.microprice) == spec_number_at(d, "microprice"@)
    &&& m.regime@ == spec_text_at(d, "regime"@, "UNKNOWN"@)
    &&& m.timestamp@ == spec_text_at(d, "timestamp"@, ""@)
}

/// Reads a parsed feature snapshot; `None` where it has no number `price`.
pub fn feature_message_of(doc: &Json) -> (r: Option<FeatureMessage>)
    ensures
        match r {
            Some(m) => spec_feature_message(m, *doc),
            None => spec_number_at(Some(*doc), "price"@) is None,
        },
{
    let d = Some(doc);
    let price = match number_at(d, "price") {
        Some(p) => p,
        None => return None,
    };
    Some(
        FeatureMessage {
            price,
            return_1: number_at(d, "return_1"),
            return_5: number_at(d, "return_5"),
            volatility_20: number_at(d, "volatility_20"),
            short_ma: number_at(d, "short_ma"),
            long_ma: number_at(d, "long_ma"),
            trend_strength: number_at(d, "trend_strength"),
            spread: number_at(d, "spread"),
            orderbook_imbalance: number_at(d, "orderbook_imbalance"),
            microprice: number_at(d, "microprice"),
            regime: text_at(d, "regime", "UNKNOWN"),
            timestamp: text_at(d, "timestamp", ""),
        },
    )
}

/// Reads a feature snapshot; `None` where `text` is not JSON or has no
/// number `price`.
pub fn decode_feature_message(text: &str) -> (r: Option<FeatureMessage>)
    ensures
        match r {
            Some(m) => spec_parse_json(text@) matches Some(doc) && spec_feature_message(m, doc),
            None => match spec_parse_json(text@) {
                Some(doc) => spec_number_at(Some(doc), "price"@) is None,
                None => true,
            },
        },
{
    match parse_document(text) {
        Some(doc) => feature_message_of(&doc),
        None => None,
    }
}

/// A trade tick as published on `market-data:ticks`, read from its `data`.
pub struct TickMessage {
    /// `"BTC-USD"` where missing.
    pub symbol: String,
    pub price: Option<String>,
    pub size: Option<String>,
    /// `""` where missing.
    pub timestamp: String,
}

/// `m` is what the document `doc` says as a tick.
pub open spec fn spec_tick_message(m: TickMessage, doc: Json) -> bool {
    let data = spec_field(Some(doc), "data"@);
    &&& m.symbol@ == spec_text_at(data, "symbol"@, "BTC-USD"@)
    &&& spec_opt_text(m.price) == spec_number_at(data, "price"@)
    &&& spec_opt_text(m.size) == spec_number_at(data, "size"@)
    &&& m.timestamp@ == spec_text_at(data, "timestamp"@, ""@)
}

/// Reads a parsed tick.
pub fn tick_message_of(doc: &Json) -> (m: TickMessage)
    ensures
        spec_tick_message(m, *doc),
{
    let data = field(Some(doc), "data");
    TickMessage {
        symbol: text_at(data, "symbol", "BTC-USD"),
        price: number_at(data, "price"),
        size: number_at(data, "size"),
        timestamp: text_at(data, "timestamp", ""),
    }
}

/// Reads a tick; `None` where `text` is not JSON.
pub fn decode_tick_message(text: &str) -> (r: Option<TickMessage>)
    ensures
        match r {
            Some(m) => spec_parse_json(text@) matches Some(doc) && spec_tick_message(m, doc),
            None => spec_parse_json(text@) is None,
        },
{
    match parse_document(text) {
        Some(doc) => Some(tick_message_of(&doc)),
        None => None,
    }
}

/// The character view of optional number texts.
pub open spec fn spec_level_texts(v: Seq<(Option<String>, Option<String>)>) -> Seq<
    (Option<Seq<char>>, Option<Seq<char>>),
> {
    v.map_values(|e: (Option<String>, Option<String>)| (spec_opt_text(e.0), spec_opt_text(e.1)))
}

/// A published level: its number members `price` and `size`.
pub open spec fn spec_level(e: Json) -> (Option<Seq<char>>, Option<Seq<char>>) {
    (spec_number_at(Some(e), "price"@), spec_number_at(Some(e), "size"@))
}

/// The levels of one side of a published book, where that side is a list.
pub open spec fn spec_levels(m: Option<Json>) -> Option<Seq<(Option<Seq<char>>, Option<Seq<char>>)>> {
    match spec_elements(m) {
        Some(items) => Some(items.map_values(|e: Json| spec_level(e))),
        None => None,
    }
}

/// The character view of an optional list of levels.
pub open spec fn spec_opt_levels(o: Option<Vec<(Option<String>, Option<String>)>>) -> Option<
    Seq<(Option<Seq<char>>, Option<Seq<char>>)>,
> {
    match o {
        Some(v) => Some(spec_level_texts(v@)),
        None => None,
    }
}

/// A published order book as sent on `market-data:orderbook`, read from its
/// `data`: the (price, size) members of each level, each side `None` where it
/// is not a list.
pub struct BookMessage {
    pub bids: Option<Vec<(Option<String>, Option<String>)>>,
    pub asks: Option<Vec<(Option<String>, Option<String>)>>,
}

/// `m` is what the document `doc` says as a published book.
pub open spec fn spec_book_message(m: BookMessage, doc: Json) -> bool {
    let data = spec_field(Some(doc), "data"@);
    &&& spec_opt_levels(m.bids) == spec_levels(spec_field(data, "bids"@))
    &&& spec_opt_levels(m.asks) == spec_levels(spec_field(data, "asks"@))
}

/// The levels of one side of a published book.
fn levels(m: Option<&Json>) -> (r: Option<Vec<(Option<String>, Option<String>)>>)
    ensures
        spec_opt_levels(r) == spec_levels(spec_opt(m)),
{
    match elements(m) {
        Some(items) => {
            let mut out: Vec<(Option<String>, Option<String>)> = Vec::new();
            let mut i: usize = 0;
            while i < items.len()
                invariant
                    i <= items@.len(),
                    out@.len() == i,
                    forall|j: int|
                        0 <= j < i ==> spec_opt_text((#[trigger] out@[j]).0) == spec_level(
                            items@[j],
                        ).0 && spec_opt_text(out@[j].1) == spec_level(items@[j]).1,
                decreases items@.len() - i,
            {
                let e = Some(&items[i]);
                out.push((number_at(e, "price"), number_at(e, "size")));
                i = i + 1;
            }
            assert(spec_level_texts(out@) =~= items@.map_values(|e: Json| spec_level(e)));
            Some(out)
        },
        None => None,
    }
}

/// Reads a parsed published book.
pub fn book_message_of(doc: &Json) -> (m: BookMessage)
    ensures
        spec_book_message(m, *doc),
{
    let data = field(Some(doc), "data");
    BookMessage { bids: levels(field(data, "bids")), asks: levels(field(data, "asks")) }
}

/// Reads a published book; `None` where `text` is not JSON.
pub fn decode_book_message(text: &str) -> (r: Option<BookMessage>)
    ensures
        match r {
            Some(m) => spec_parse_json(text@) matches Some(doc) && spec_book_message(m, doc),
            None => spec_parse_json(text@) is None,
        },
{
    match parse_document(text) {
        Some(doc) => Some(book_message_of(&doc)),
        None => None,
    }
}

/// Each field of a signal record is the member of the same name: the label
/// is member `signal` (`"FLAT"` when it is not a string), the signal is the
/// one that label names, and each number is the printed member.
pub proof fn lemma_signal_fields(m: SignalMessage, doc: Json)
    requires
        spec_signal_message(m, doc),
    ensures
        ({
            let d = Some(doc);
            &&& m.label@ == spec_text_or(spec_field(d, "signal"@), "FLAT"@)
            &&& m.signal == spec_signal_of(encode_utf8(m.label@))
            &&& spec_opt_text(m.price) == spec_number(spec_field(d, "price"@))
            &&& spec_opt_text(m.short_ma) == spec_number(spec_field(d, "short_ma"@))
            &&& spec_opt_text(m.long_ma) == spec_number(spec_field(d, "long_ma"@))
            &&& m.timestamp@ == spec_text_or(spec_field(d, "timestamp"@), ""@)
        }),
{
}

/// Each field of a fill record is the member of the same name.
pub proof fn lemma_fill_fields(m: FillMessage, doc: Json)
    requires
        spec_fill_message(m, doc),
    ensures
        ({
            let d = Some(doc);
            &&& m.signal@ == spec_text_or(spec_field(d, "signal"@), "FLAT"@)
            &&& m.fill@ == spec_text_or(spec_field(d, "fill"@), "NONE"@)
            &&& spec_opt_text(m.qty) == spec_number(spec_field(d, "qty"@))
            &&& spec_opt_text(m.avg_price) == spec_number(spec_field(d, "avg_price"@))
            &&& spec_opt_text(m.mark) == spec_number(spec_field(d, "mark"@))
            &&& spec_opt_text(m.realized_pnl) == spec_number(spec_field(d, "realized_pnl"@))
            &&& spec_opt_text(m.unrealized_pnl) == spec_number(spec_field(d, "unrealized_pnl"@))
            &&& m.timestamp@ == spec_text_or(spec_field(d, "timestamp"@), ""@)
        }),
{
}

/// Each field of a risk record is the member of the same name.
pub proof fn lemma_risk_fields(m: RiskMessage, doc: Json)
    requires
        spec_risk_message(m, doc),
    ensures
        ({
            let d = Some(doc);
            &&& m.risk_state@ == spec_text_or(spec_field(d, "risk_state"@), "OK"@)
            &&& spec_opt_text(m.qty) == spec_number(spec_field(d, "qty"@))
            &&& spec_opt_text(m.mark) == spec_number(spec_field(d, "mark"@))
            &&& spec_opt_text(m.notional_exposure) == spec_number(spec_field(d, "notional_exposure"@))
            &&& spec_opt_text(m.exposure_utilization) == spec_number(spec_field(d, "exposure_utilization"@))
            &&& spec_opt_text(m.realized_pnl) == spec_number(spec_field(d, "realized_pnl"@))
            &&& spec_opt_text(m.unrealized_pnl) == spec_number(spec_field(d, "unrealized_pnl"@))
            &&& spec_opt_text(m.total_pnl) == spec_number(spec_field(d, "total_pnl"@))
            &&& spec_opt_text(m.var_95) == spec_number(spec_field(d, "var_95"@))
            &&& spec_opt_text(m.expected_shortfall) == spec_number(spec_field(d, "expected_shortfall"@))
        }),
{
}

/// Each field of a feature record is the member of the same name (the short
/// average is member `short_ma`, the long one member `long_ma`), and a
/// record exists only where member `price` is a number.
pub proof fn lemma_feature_fields(m: FeatureMessage, doc: Json)
    requires
        spec_feature_message(m, doc),
    ensures
        ({
            let d = Some(doc);
            &&& spec_number(spec_field(d, "price"@)) == Some(m.price@)
            &&& spec_opt_text(m.return_1) == spec_number(spec_field(d, "return_1"@))
            &&& spec_opt_text(m.return_5) == spec_number(spec_field(d, "return_5"@))
            &&& spec_opt_text(m.volatility_20) == spec_number(spec_field(d, "volatility_20"@))
            &&& spec_opt_text(m.short_ma) == spec_number(spec_field(d, "short_ma"@))
            &&& spec_opt_text(m.long_ma) == spec_number(spec_field(d, "long_ma"@))
            &&& spec_opt_text(m.trend_strength) == spec_number(spec_field(d, "trend_strength"@))
            &&& spec_opt_text(m.spread) == spec_number(spec_field(d, "spread"@))
            &&& spec_opt_text(m.orderbook_imbalance) == spec_number(spec_field(d, "orderbook_imbalance"@))
            &&& spec_opt_text(m.microprice) == spec_number(spec_field(d, "microprice"@))
            &&& m.regime@ == spec_text_or(spec_field(d, "regime"@), "UNKNOWN"@)
            &&& m.timestamp@ == spec_text_or(spec_field(d, "timestamp"@), ""@)
        }),
{
}

/// Each field of a tick record is the member of the same name inside the
/// document's `data`.
pub proof fn lemma_tick_fields(m: TickMessage, doc: Json)
    requires
        spec_tick_message(m, doc),
    ensures
        ({
            let data = spec_field(Some(doc), "data"@);
            &&& m.symbol@ == spec_text_or(spec_field(data, "symbol"@), "BTC-USD"@)
            &&& spec_opt_text(m.price) == spec_number(spec_field(data, "price"@))
            &&& spec_opt_text(m.size) == spec_number(spec_field(data, "size"@))
            &&& m.timestamp@ == spec_text_or(spec_field(data, "timestamp"@), ""@)
        }),
{
}

/// The bid levels of a book record come from `data.bids` and the ask levels
/// from `data.asks`, level by level and in order: level `i` holds the
/// `price` and `size` members of element `i`.
pub proof fn lemma_book_levels(m: BookMessage, doc: Json, i: int)
    requires
        spec_book_message(m, doc),
    ensures
        ({
            let data = spec_field(Some(doc), "data"@);
            let bids = spec_field(data, "bids"@);
            let asks = spec_field(data, "asks"@);
            &&& (m.bids is Some) == (spec_elements(bids) is Some)
            &&& (m.asks is Some) == (spec_elements(asks) is Some)
            &&& m.bids matches Some(v) ==> v@.len() == spec_elements(bids).unwrap().len() && (0 <= i
                < v@.len() ==> spec_opt_text(v@[i].0) == spec_number(
                spec_field(spec_item(bids, i), "price"@),
            ) && spec_opt_text(v@[i].1) == spec_number(spec_field(spec_item(bids, i), "size"@)))
            &&& m.asks matches Some(v) ==> v@.len() == spec_elements(asks).unwrap().len() && (0 <= i
                < v@.len() ==> spec_opt_text(v@[i].0) == spec_number(
                spec_field(spec_item(asks, i), "price"@),
            ) && spec_opt_text(v@[i].1) == spec_number(spec_field(spec_item(asks, i), "size"@)))
        }),
{
    let data = spec_field(Some(doc), "data"@);
    let bids = spec_field(data, "bids"@);
    let asks = spec_field(data, "asks"@);
    if let Some(v) = m.bids {
        assert(spec_level_texts(v@).len() == v@.len());
        if 0 <= i < v@.len() {
            assert(spec_level_texts(v@)[i] == (spec_opt_text(v@[i].0), spec_opt_text(v@[i].1)));
        }
    }
    if let Some(v) = m.asks {
        assert(spec_level_texts(v@).len() == v@.len());
        if 0 <= i < v@.len() {
            assert(spec_level_texts(v@)[i] == (spec_opt_text(v@[i].0), spec_opt_text(v@[i].1)));
        }
    }
}

} // verus!
