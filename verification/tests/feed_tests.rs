use quant_platform::book::BookSide;
use quant_platform::feed::{candle_second, decode_feed_message, FeedEvent};

fn pair(p: &str, s: &str) -> (String, String) {
    (p.to_string(), s.to_string())
}

#[test]
fn snapshot_message_keeps_entries_in_order() {
    let ev = decode_feed_message(
        r#"{"type":"snapshot","product_id":"BTC-USD","bids":[["100.5","2"],["99","1"]],"asks":[["101","3"]]}"#,
    );
    assert_eq!(
        ev,
        FeedEvent::Snapshot {
            bids: vec![pair("100.5", "2"), pair("99", "1")],
            asks: vec![pair("101", "3")],
        }
    );
}

#[test]
fn snapshot_entries_default_to_zero() {
    let ev = decode_feed_message(r#"{"type":"snapshot","bids":[[100,"2"],["7"]],"asks":"none"}"#);
    assert_eq!(
        ev,
        FeedEvent::Snapshot { bids: vec![pair("0", "2"), pair("7", "0")], asks: vec![] }
    );
}

#[test]
fn update_message_reads_sides() {
    let ev = decode_feed_message(
        r#"{"type":"l2update","changes":[["buy","100","0"],["sell","101","5"],["hold","1","1"],[]]}"#,
    );
    assert_eq!(
        ev,
        FeedEvent::Update {
            changes: vec![
                (BookSide::Buy, "100".to_string(), "0".to_string()),
                (BookSide::Sell, "101".to_string(), "5".to_string()),
                (BookSide::Other, "1".to_string(), "1".to_string()),
                (BookSide::Other, "0".to_string(), "0".to_string()),
            ],
        }
    );
}

#[test]
fn update_without_changes_is_ignored() {
    assert_eq!(decode_feed_message(r#"{"type":"l2update"}"#), FeedEvent::Ignored);
    assert_eq!(decode_feed_message(r#"{"type":"l2update","changes":{}}"#), FeedEvent::Ignored);
}

#[test]
fn ticker_message_reads_price_size_time() {
    let ev = decode_feed_message(
        r#"{"type":"ticker","price":"101.5","last_size":"0.01","time":"2024-01-01T00:00:00.123Z"}"#,
    );
    assert_eq!(
        ev,
        FeedEvent::Ticker {
            price: "101.5".to_string(),
            last_size: "0.01".to_string(),
            time: "2024-01-01T00:00:00.123Z".to_string(),
        }
    );
}

#[test]
fn ticker_defaults() {
    assert_eq!(
        decode_feed_message(r#"{"type":"ticker","price":101.5}"#),
        FeedEvent::Ticker { price: "0".to_string(), last_size: "0".to_string(), time: String::new() }
    );
}

#[test]
fn other_messages_are_ignored() {
    assert_eq!(decode_feed_message("not json"), FeedEvent::Ignored);
    assert_eq!(decode_feed_message(r#"{"type":"subscriptions"}"#), FeedEvent::Ignored);
    assert_eq!(decode_feed_message(r#"{"type":3}"#), FeedEvent::Ignored);
    assert_eq!(decode_feed_message(r#"{"price":"1"}"#), FeedEvent::Ignored);
    assert_eq!(decode_feed_message(r#"["ticker"]"#), FeedEvent::Ignored);
}

#[test]
fn candle_second_keeps_nineteen_characters() {
    assert_eq!(candle_second("2024-01-01T00:00:01.123456Z"), "2024-01-01T00:00:01");
    assert_eq!(candle_second("2024-01-01"), "2024-01-01");
    assert_eq!(candle_second(""), "");
}
