use exchange::binance_ws_ticker::{
    book_subscription_payload, is_fresh, parse_ticker_update, stats_subscription_payload,
    stream_symbol, BinanceTickerUpdate, LagReportState,
};
use serde_json::Value;

#[test]
fn lag_reports_are_aggregated_without_hiding_the_total() {
    let mut report = LagReportState::default();

    assert_eq!(report.observe(3, 10_000), Some(3));
    assert_eq!(report.observe(4, 11_000), None);
    assert_eq!(report.observe(5, 14_999), None);
    assert_eq!(report.observe(6, 15_000), Some(15));
}

#[test]
fn book_payload_uses_only_requested_symbol_streams() {
    let payload = book_subscription_payload("SUBSCRIBE", &["btcusdt".to_owned()], 17);
    let value: Value = serde_json::from_str(&payload).expect("json parses");
    assert_eq!(value["method"], "SUBSCRIBE");
    assert_eq!(value["params"][0], "btcusdt@bookTicker");
    assert_eq!(value["params"].as_array().map(Vec::len), Some(1));
    assert_eq!(value["id"], 17);
}

#[test]
fn stats_unsubscribe_payload_uses_only_requested_symbol_streams() {
    let payload = stats_subscription_payload("UNSUBSCRIBE", &["btcusdt".to_owned()], 18);
    let value: Value = serde_json::from_str(&payload).expect("json parses");
    assert_eq!(value["method"], "UNSUBSCRIBE");
    assert_eq!(value["params"][0], "btcusdt@ticker");
    assert_eq!(value["params"].as_array().map(Vec::len), Some(1));
}

#[test]
fn stream_symbol_normalises_inputs() {
    assert_eq!(stream_symbol("BTC"), "btcusdt");
    assert_eq!(stream_symbol("BTCUSDT"), "btcusdt");
    assert_eq!(stream_symbol("BTCUSDC"), "btcusdc");
    assert_eq!(stream_symbol("eth"), "ethusdt");
}

#[test]
fn binance_ws_ticker_tests_parse_ticker_update_extracts_24h_ticker() {
    let raw = r#"{
        "e": "24hrTicker",
        "E": 1779511245529,
        "s": "BTCUSDT",
        "c": "75492.10",
        "b": "75491.90",
        "a": "75492.20",
        "q": "3404219299.89529",
        "C": 1779511245000
    }"#;
    let parsed = parse_ticker_update(raw).expect("ticker parses");
    let BinanceTickerUpdate::Ticker(item) = parsed else {
        panic!("expected 24h ticker");
    };
    assert_eq!(item.symbol, "BTCUSDT");
    assert_eq!(item.last_price, "75492.10");
    assert_eq!(item.bid_price, "75491.90");
    assert_eq!(item.ask_price, "75492.20");
    assert_eq!(item.quote_volume, "3404219299.89529");
}

#[test]
fn parse_ticker_update_extracts_book_ticker() {
    let raw = r#"{
        "e": "bookTicker",
        "E": 1568014460893,
        "T": 1568014460891,
        "s": "BNBUSDT",
        "b": "25.35190000",
        "B": "31.21000000",
        "a": "25.36520000",
        "A": "40.66000000"
    }"#;
    let parsed = parse_ticker_update(raw).expect("book ticker parses");
    let BinanceTickerUpdate::Book(item) = parsed else {
        panic!("expected book ticker");
    };
    assert_eq!(item.symbol, "BNBUSDT");
    assert_eq!(item.bid_price, "25.35190000");
    assert_eq!(item.ask_price, "25.36520000");
}

#[test]
fn binance_ws_ticker_tests_parse_ticker_update_ignores_ack_and_other_events() {
    assert!(parse_ticker_update(r#"{"result":null,"id":17}"#).is_none());
    assert!(parse_ticker_update(r#"{"e":"kline","s":"BTCUSDT"}"#).is_none());
}

#[test]
fn book_ticker_times_and_mistyped_fields() {
    let parsed = parse_ticker_update(r#"{"e":"bookTicker","E":5,"T":4,"s":"X"}"#).expect("book");
    let BinanceTickerUpdate::Book(item) = parsed else {
        panic!("expected book ticker");
    };
    assert_eq!(item.event_time, 5);
    assert_eq!(item.transaction_time, 4);
    assert_eq!(item.bid_price, "");
    assert!(parse_ticker_update(r#"{"e":"bookTicker","E":1.5}"#).is_none());
    assert!(parse_ticker_update(r#"{"e":null}"#).is_none());
    assert!(parse_ticker_update("[1]").is_none());
}

#[test]
fn lag_report_counter_wraps_and_reports_at_interval() {
    let mut report = LagReportState {
        pending_missed: u64::MAX,
        last_reported_at_ms: 0,
    };
    assert_eq!(report.observe(2, 1), None);
    assert_eq!(report.pending_missed, 1);
    assert_eq!(report.observe(0, 5_000), Some(1));
    assert_eq!(report.pending_missed, 0);
    assert_eq!(report.last_reported_at_ms, 5_000);
    assert_eq!(report.observe(1, i64::MIN), None);
    assert_eq!(report.last_reported_at_ms, 5_000);
}

#[test]
fn exact_book_payload_text() {
    assert_eq!(
        book_subscription_payload("SUBSCRIBE", &["a".to_owned(), "b".to_owned()], 0),
        r#"{"id":0,"method":"SUBSCRIBE","params":["a@bookTicker","b@bookTicker"]}"#
    );
    assert!(is_fresh(0, 30_000));
    assert!(!is_fresh(0, 30_001));
}
