//! The messages of the exchange's ticker and level-2 feed, read into the
//! events that the market-data service acts on.
//!
//! Quotes stay in the decimal text the exchange sends; a member that is
//! missing, or not a string, reads as `"0"` (a quote) or `""` (a side or a
//! time).
use crate::book::{spec_side_of, BookSide};
use crate::json::{
    elements, field, item, parse_document, spec_elements, spec_field, spec_item, spec_opt,
    spec_parse_json, spec_text, spec_text_or, text_or, Json,
};
use vstd::prelude::*;
use vstd::string::StrSliceExecFns;
use vstd::utf8::encode_utf8;

verus! {

/// How many leading characters of a trade time name its second
/// (`YYYY-MM-DDTHH:MM:SS`).
pub const SECOND_KEY_LEN: usize = 19;

/// The second that a trade time falls in: its first `SECOND_KEY_LEN`
/// characters, all of a shorter time. Trades of the same second share a
/// candle.
pub fn candle_second(time: &str) -> (s: String)
    ensures
        s@ == (if time@.len() <= SECOND_KEY_LEN { time@ } else { time@.take(SECOND_KEY_LEN as int) }),
{
    let n = time.unicode_len();
    let k = if n < SECOND_KEY_LEN {
        n
    } else {
        SECOND_KEY_LEN
    };
    let key = time.substring_char(0, k);
    proof {
        assert(time@.subrange(0, time@.len() as int) =~= time@);
    }
    key.to_owned()
}

/// One feed message, as the market-data service reads it.
#[derive(Debug, PartialEq)]
pub enum FeedEvent {
    /// A full book: the (price, size) texts of each side, in feed order.
    Snapshot { bids: Vec<(String, String)>, asks: Vec<(String, String)> },
    /// Incremental changes: side, price text and size text, in feed order.
    Update { changes: Vec<(BookSide, String, String)> },
    /// A trade: price, size and time texts.
    Ticker { price: String, last_size: String, time: String },
    /// Anything else: not JSON, no `"type"`, another type, or an update
    /// without a list of changes.
    Ignored,
}

/// A [`FeedEvent`] with its texts as character sequences.
pub ghost enum FeedEventView {
    Snapshot { bids: Seq<(Seq<char>, Seq<char>)>, asks: Seq<(Seq<char>, Seq<char>)> },
    Update { changes: Seq<(BookSide, Seq<char>, Seq<char>)> },
    Ticker { price: Seq<char>, last_size: Seq<char>, time: Seq<char> },
    Ignored,
}

/// The character view of (price, size) texts.
pub open spec fn spec_quote_texts(v: Seq<(String, String)>) -> Seq<(Seq<char>, Seq<char>)> {
    v.map_values(|e: (String, String)| (e.0@, e.1@))
}

/// The character view of (side, price, size) changes.
pub open spec fn spec_change_texts(v: Seq<(BookSide, String, String)>) -> Seq<
    (BookSide, Seq<char>, Seq<char>),
> {
    v.map_values(|e: (BookSide, String, String)| (e.0, e.1@, e.2@))
}

impl View for FeedEvent {
    type V = FeedEventView;

    open spec fn view(&self) -> FeedEventView {
        match self {
            FeedEvent::Snapshot { bids, asks } => FeedEventView::Snapshot {
                bids: spec_quote_texts(bids@),
                asks: spec_quote_texts(asks@),
            },
            FeedEvent::Update { changes } => FeedEventView::Update {
                changes: spec_change_texts(changes@),
            },
            FeedEvent::Ticker { price, last_size, time } => FeedEventView::Ticker {
                price: price@,
                last_size: last_size@,
                time: time@,
            },
            FeedEvent::Ignored => FeedEventView::Ignored,
        }
    }
}

/// A snapshot entry: its first two elements, the price and the size.
pub open spec fn spec_quote_entry(e: Json) -> (Seq<char>, Seq<char>) {
    (spec_text_or(spec_item(Some(e), 0), "0"@), spec_text_or(spec_item(Some(e), 1), "0"@))
}

/// The entries of one side of a snapshot; none where the side is not a list.
pub open spec fn spec_quote_entries(m: Option<Json>) -> Seq<(Seq<char>, Seq<char>)> {
    match spec_elements(m) {
        Some(items) => items.map_values(|e: Json| spec_quote_entry(e)),
        None => Seq::empty(),
    }
}

/// A level-2 change: its side label read as a side, then price and size.
pub open spec fn spec_change_entry(e: Json) -> (BookSide, Seq<char>, Seq<char>) {
    (
        spec_side_of(encode_utf8(spec_text_or(spec_item(Some(e), 0), ""@))),
        spec_text_or(spec_item(Some(e), 1), "0"@),
        spec_text_or(spec_item(Some(e), 2), "0"@),
    )
}

/// The event that the document `doc` carries.
pub open spec fn spec_feed_event(doc: Json) -> FeedEventView {
    let d = Some(doc);
    match spec_text(spec_field(d, "type"@)) {
        Some(t) => if t == "snapshot"@ {
            FeedEventView::Snapshot {
                bids: spec_quote_entries(spec_field(d, "bids"@)),
                asks: spec_quote_entries(spec_field(d, "asks"@)),
            }
        } else if t == "l2update"@ {
            match spec_elements(spec_field(d, "changes"@)) {
                Some(cs) => FeedEventView::Update {
                    changes: cs.map_values(|c: Json| spec_change_entry(c)),
                },
                None => FeedEventView::Ignored,
            }
        } else if t == "ticker"@ {
            FeedEventView::Ticker {
                price: spec_text_or(spec_field(d, "price"@), "0"@),
                last_size: spec_text_or(spec_field(d, "last_size"@), "0"@),
                time: spec_text_or(spec_field(d, "time"@), ""@),
            }
        } else {
            FeedEventView::Ignored
        },
        None => FeedEventView::Ignored,
    }
}

/// The event that the message `text` carries.
pub open spec fn spec_feed_message(text: Seq<char>) -> FeedEventView {
    match spec_parse_json(text) {
        Some(doc) => spec_feed_event(doc),
        None => FeedEventView::Ignored,
    }
}

/// Whether `t` reads `lit`.
fn text_is(t: &String, lit: &str) -> (b: bool)
    ensures
        b == (t@ == lit@),
{
    *t == lit.to_owned()
}

/// The entries of one side of a snapshot.
fn quote_entries(m: Option<&Json>) -> (v: Vec<(String, String)>)
    ensures
        spec_quote_texts(v@) == spec_quote_entries(spec_opt(m)),
{
    let mut out: Vec<(String, String)> = Vec::new();
    match elements(m) {
        Some(items) => {
            let mut i: usize = 0;
            while i < items.len()
                invariant
                    i <= items@.len(),
                    out@.len() == i,
                    forall|j: int|
                        0 <= j < i ==> (#[trigger] out@[j]).0@ == spec_quote_entry(items@[j]).0
                            && out@[j].1@ == spec_quote_entry(items@[j]).1,
                decreases items@.len() - i,
            {
                let e = &items[i];
                let price = text_or(item(Some(e), 0), "0");
                let size = text_or(item(Some(e), 1), "0");
                out.push((price, size));
                i = i + 1;
            }
            assert(spec_quote_texts(out@) =~= items@.map_values(|e: Json| spec_quote_entry(e)));
        },
        None => {
            assert(spec_quote_texts(out@) =~= Seq::empty());
        },
    }
    out
}

/// The changes of an update message.
fn change_entries(items: &Vec<Json>) -> (v: Vec<(BookSide, String, String)>)
    ensures
        spec_change_texts(v@) == items@.map_values(|c: Json| spec_change_entry(c)),
{
    let mut out: Vec<(BookSide, String, String)> = Vec::new();
    let mut i: usize = 0;
    while i < items.len()
        invariant
            i <= items@.len(),
            out@.len() == i,
            forall|j: int|
                0 <= j < i ==> (#[trigger] out@[j]).0 == spec_change_entry(items@[j]).0
                    && out@[j].1@ == spec_change_entry(items@[j]).1 && out@[j].2@
                    == spec_change_entry(items@[j]).2,
        decreases items@.len() - i,
    {
        let c = &items[i];
        let label = text_or(item(Some(c), 0), "");
        let side = BookSide::from_label(label.as_str());
        let price = text_or(item(Some(c), 1), "0");
        let size = text_or(item(Some(c), 2), "0");
        out.push((side, price, size));
        i = i + 1;
    }
    assert(spec_change_texts(out@) =~= items@.map_values(|c: Json| spec_change_entry(c)));
    out
}

/// Reads the event that the parsed message `doc` carries.
pub fn feed_event_of(doc: &Json) -> (ev: FeedEvent)
    ensures
        ev@ == spec_feed_event(*doc),
{
    let d = Some(doc);
    match field(d, "type") {
        Some(Json::Text(t)) => {
            if text_is(t, "snapshot") {
                let bids = quote_entries(field(d, "bids"));
                let asks = quote_entries(field(d, "asks"));
                FeedEvent::Snapshot { bids, asks }
            } else if text_is(t, "l2update") {
                match elements(field(d, "changes")) {
                    Some(items) => FeedEvent::Update { changes: change_entries(items) },
                    None => FeedEvent::Ignored,
                }
            } else if text_is(t, "ticker") {
                let price = text_or(field(d, "price"), "0");
                let last_size = text_or(field(d, "last_size"), "0");
                let time = text_or(field(d, "time"), "");
                FeedEvent::Ticker { price, last_size, time }
            } else {
                FeedEvent::Ignored
            }
        },
        _ => FeedEvent::Ignored,
    }
}

/// Reads the event that the feed message `text` carries; a message that is
/// not JSON is ignored.
pub fn decode_feed_message(text: &str) -> (ev: FeedEvent)
    ensures
        ev@ == spec_feed_message(text@),
{
    match parse_document(text) {
        Some(doc) => feed_event_of(&doc),
        None => FeedEvent::Ignored,
    }
}

/// What a feed document carries, case by case: a `"snapshot"` gives, for each
/// side, one (price, size) entry per element of member `bids` (`asks`), in
/// order, read from the element's first two items; an `"l2update"` with a
/// list `changes` gives one change per element, side from its first item,
/// price and size from the next two; a `"ticker"` gives members `price`,
/// `last_size` and `time`; a document without a string `type` is ignored.
pub proof fn lemma_feed_event_cases(doc: Json, i: int)
    ensures
        ({
            let d = Some(doc);
            let ev = spec_feed_event(doc);
            &&& spec_text(spec_field(d, "type"@)) is None ==> ev == FeedEventView::Ignored
            &&& spec_text(spec_field(d, "type"@)) == Some("snapshot"@) ==> (ev matches FeedEventView::Snapshot {
                bids,
                asks,
            } && {
                let bs = spec_field(d, "bids"@);
                let as_ = spec_field(d, "asks"@);
                &&& bids.len() == (if spec_elements(bs) is Some { spec_elements(bs).unwrap().len() } else { 0 })
                &&& asks.len() == (if spec_elements(as_) is Some { spec_elements(as_).unwrap().len() } else { 0 })
                &&& 0 <= i < bids.len() ==> bids[i] == (
                    spec_text_or(spec_item(spec_item(bs, i), 0), "0"@),
                    spec_text_or(spec_item(spec_item(bs, i), 1), "0"@),
                )
                &&& 0 <= i < asks.len() ==> asks[i] == (
                    spec_text_or(spec_item(spec_item(as_, i), 0), "0"@),
                    spec_text_or(spec_item(spec_item(as_, i), 1), "0"@),
                )
            })
            &&& spec_text(spec_field(d, "type"@)) == Some("ticker"@) ==> ev == FeedEventView::Ticker {
                price: spec_text_or(spec_field(d, "price"@), "0"@),
                last_size: spec_text_or(spec_field(d, "last_size"@), "0"@),
                time: spec_text_or(spec_field(d, "time"@), ""@),
            }
            &&& spec_text(spec_field(d, "type"@)) == Some("l2update"@) ==> {
                let cs = spec_field(d, "changes"@);
                &&& spec_elements(cs) is None ==> ev == FeedEventView::Ignored
                &&& spec_elements(cs) is Some ==> (ev matches FeedEventView::Update { changes } && changes.len()
                    == spec_elements(cs).unwrap().len() && (0 <= i < changes.len() ==> changes[i] == (
                    spec_side_of(encode_utf8(spec_text_or(spec_item(spec_item(cs, i), 0), ""@))),
                    spec_text_or(spec_item(spec_item(cs, i), 1), "0"@),
                    spec_text_or(spec_item(spec_item(cs, i), 2), "0"@),
                )))
            }
        }),
{
    reveal_strlit("snapshot");
    reveal_strlit("ticker");
    reveal_strlit("l2update");
    assert("ticker"@.len() == 6 && "snapshot"@.len() == 8 && "l2update"@.len() == 8);
    assert("snapshot"@[0] != "l2update"@[0]);
    let d = Some(doc);
    let bs = spec_field(d, "bids"@);
    let as_ = spec_field(d, "asks"@);
    let cs = spec_field(d, "changes"@);
    if let Some(items) = spec_elements(bs) {
        if 0 <= i < items.len() {
            assert(spec_item(bs, i) == Some(items[i]));
        }
    }
    if let Some(items) = spec_elements(as_) {
        if 0 <= i < items.len() {
            assert(spec_item(as_, i) == Some(items[i]));
        }
    }
    if let Some(items) = spec_elements(cs) {
        if 0 <= i < items.len() {
            assert(spec_item(cs, i) == Some(items[i]));
        }
    }
}

} // verus!
