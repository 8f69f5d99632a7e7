use quant_platform::execution::Signal;
use quant_platform::json::{field, item, number, parse_document, text_or, Json};
use quant_platform::messages::{
    decode_book_message, decode_feature_message, decode_fill_message, decode_risk_message,
    decode_signal_message, decode_tick_message,
};

fn some(s: &str) -> Option<String> {
    Some(s.to_string())
}

#[test]
fn signal_message_reads_label_price_time() {
    let m = decode_signal_message(
        r#"{"signal":"LONG","price":101.5,"short_ma":100,"long_ma":99.25,"timestamp":"t1"}"#,
    )
    .unwrap();
    assert_eq!(m.signal, Signal::Long);
    assert_eq!(m.label, "LONG");
    assert_eq!(m.price, some("101.5"));
    assert_eq!(m.short_ma, some("100"));
    assert_eq!(m.long_ma, some("99.25"));
    assert_eq!(m.timestamp, "t1");
}

#[test]
fn signal_message_defaults() {
    let m = decode_signal_message("{}").unwrap();
    assert_eq!(m.signal, Signal::Flat);
    assert_eq!(m.label, "FLAT");
    assert_eq!(m.price, None);
    assert_eq!(m.timestamp, "");
    let m = decode_signal_message(r#"{"signal":"SHORT","price":"101"}"#).unwrap();
    assert_eq!(m.signal, Signal::Short);
    assert_eq!(m.price, None);
}

#[test]
fn messages_that_are_not_json_are_refused() {
    assert!(decode_signal_message("{").is_none());
    assert!(decode_fill_message("").is_none());
    assert!(decode_risk_message("nope").is_none());
    assert!(decode_tick_message("[1,").is_none());
    assert!(decode_book_message("}").is_none());
    assert!(decode_feature_message("x").is_none());
}

#[test]
fn fill_message_fields_and_defaults() {
    let m = decode_fill_message(
        r#"{"signal":"LONG","fill":"BUY","qty":1,"avg_price":100.5,"mark":101,"realized_pnl":0,"unrealized_pnl":0.5,"timestamp":"t"}"#,
    )
    .unwrap();
    assert_eq!(m.signal, "LONG");
    assert_eq!(m.fill, "BUY");
    assert_eq!(m.qty, some("1"));
    assert_eq!(m.avg_price, some("100.5"));
    assert_eq!(m.mark, some("101"));
    assert_eq!(m.realized_pnl, some("0"));
    assert_eq!(m.unrealized_pnl, some("0.5"));
    assert_eq!(m.timestamp, "t");
    let m = decode_fill_message(r#"{"qty":null}"#).unwrap();
    assert_eq!(m.signal, "FLAT");
    assert_eq!(m.fill, "NONE");
    assert_eq!(m.qty, None);
}

#[test]
fn risk_message_fields_and_defaults() {
    let m = decode_risk_message(r#"{"risk_state":"WARNING","qty":-2,"var_95":3.3}"#).unwrap();
    assert_eq!(m.risk_state, "WARNING");
    assert_eq!(m.qty, some("-2"));
    assert_eq!(m.var_95, some("3.3"));
    assert_eq!(m.mark, None);
    assert_eq!(decode_risk_message("{}").unwrap().risk_state, "OK");
}

#[test]
fn feature_message_needs_a_number_price() {
    assert!(decode_feature_message(r#"{"short_ma":1}"#).is_none());
    assert!(decode_feature_message(r#"{"price":"100"}"#).is_none());
    let m = decode_feature_message(r#"{"price":100.25,"return_5":0.001,"timestamp":"t"}"#).unwrap();
    assert_eq!(m.price, "100.25");
    assert_eq!(m.return_5, some("0.001"));
    assert_eq!(m.return_1, None);
    assert_eq!(m.regime, "UNKNOWN");
    assert_eq!(m.timestamp, "t");
}

#[test]
fn tick_message_reads_data() {
    let m = decode_tick_message(
        r#"{"event_type":"tick","data":{"symbol":"ETH-USD","price":2000.5,"size":0.1,"timestamp":"t"}}"#,
    )
    .unwrap();
    assert_eq!(m.symbol, "ETH-USD");
    assert_eq!(m.price, some("2000.5"));
    assert_eq!(m.size, some("0.1"));
    assert_eq!(m.timestamp, "t");
    let m = decode_tick_message(r#"{"price":1}"#).unwrap();
    assert_eq!(m.symbol, "BTC-USD");
    assert_eq!(m.price, None);
    assert_eq!(m.timestamp, "");
}

#[test]
fn book_message_reads_levels() {
    let m = decode_book_message(
        r#"{"data":{"bids":[{"price":100,"size":2},{"price":99}],"asks":"x"}}"#,
    )
    .unwrap();
    assert_eq!(m.bids, Some(vec![(some("100"), some("2")), (some("99"), None)]));
    assert_eq!(m.asks, None);
}

#[test]
fn document_accessors() {
    let doc = parse_document(r#"{"a":[1,"x",{"b":true}],"c":"text"}"#).unwrap();
    let a = field(Some(&doc), "a");
    assert_eq!(number(item(a, 0)), some("1"));
    assert_eq!(text_or(item(a, 1), "d"), "x");
    assert_eq!(text_or(item(a, 5), "d"), "d");
    assert_eq!(field(item(a, 2), "b"), Some(&Json::Bool(true)));
    assert_eq!(text_or(field(Some(&doc), "c"), ""), "text");
    assert_eq!(field(Some(&doc), "missing"), None);
    assert_eq!(field(a, "b"), None);
    assert!(parse_document("{").is_none());
}
