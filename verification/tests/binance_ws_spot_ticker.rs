use exchange::binance_ws_spot_ticker::{
    is_fresh, parse_control_response, parse_ticker_update, parse_ticker_updates, stream_symbol,
    stream_symbols, subscription_payload, BinanceSpotTickerUpdate, ControlResponse,
};
use serde_json::Value;

#[test]
fn subscription_payload_matches_binance_spot_schema() {
    let payload = subscription_payload(
        "SUBSCRIBE",
        &["btcusdt".to_owned(), "ethusdc".to_owned()],
        17,
    );
    let value: Value = serde_json::from_str(&payload).expect("json parses");
    assert_eq!(value["method"], "SUBSCRIBE");
    assert_eq!(value["params"][0], "btcusdt@ticker");
    assert_eq!(value["params"][1], "btcusdt@bookTicker");
    assert_eq!(value["params"][2], "ethusdc@ticker");
    assert_eq!(value["params"][3], "ethusdc@bookTicker");
    assert_eq!(value["params"].as_array().unwrap().len(), 4);
    assert_eq!(value["id"], 17);
}

#[test]
fn unsubscribe_payload_uses_same_stream_names() {
    let payload = subscription_payload("UNSUBSCRIBE", &["btcusdt".to_owned()], 18);
    let value: Value = serde_json::from_str(&payload).expect("json parses");
    assert_eq!(value["method"], "UNSUBSCRIBE");
    assert_eq!(value["params"][0], "btcusdt@ticker");
    assert_eq!(value["params"][1], "btcusdt@bookTicker");
    assert_eq!(value["params"].as_array().unwrap().len(), 2);
}

#[test]
fn stream_symbol_normalizes_pair_inputs() {
    assert_eq!(stream_symbol("BTC"), Some("btcusdt".to_owned()));
    assert_eq!(stream_symbol("BTC/USDT"), Some("btcusdt".to_owned()));
    assert_eq!(stream_symbol("eth-usdc"), Some("ethusdc".to_owned()));
    assert_eq!(stream_symbol(""), None);
}

#[test]
fn binance_ws_spot_ticker_tests_parse_ticker_update_extracts_24h_ticker() {
    let raw = r#"{
        "e": "24hrTicker",
        "E": 1672515782136,
        "s": "BNBBTC",
        "c": "0.0025",
        "q": "18",
        "b": "0.0024",
        "B": "10",
        "a": "0.0026",
        "A": "100",
        "C": 1672515782000
    }"#;
    let parsed = parse_ticker_update(raw).expect("ticker parses");
    let BinanceSpotTickerUpdate::Ticker(parsed) = parsed else {
        panic!("expected 24h ticker");
    };
    assert_eq!(parsed.symbol, "BNBBTC");
    assert_eq!(parsed.last_price, "0.0025");
    assert_eq!(parsed.quote_volume, "18");
    assert_eq!(parsed.bid_price, "0.0024");
    assert_eq!(parsed.ask_price, "0.0026");
}

#[test]
fn parse_all_market_array_extracts_complete_tickers() {
    let raw = r#"[{"e":"24hrTicker","E":1720000000000,"s":"BTCUSDT","c":"60000","q":"1000000","b":"59999","B":"2","a":"60001","A":"3","C":1720000000001},{"e":"24hrTicker","E":1720000000002,"s":"ETHUSDT","c":"3000","q":"500000","b":"2999","B":"4","a":"3001","A":"5","C":1720000000003}]"#;
    let rows = parse_ticker_updates(raw);
    assert_eq!(rows.len(), 2);
    assert!(matches!(
        &rows[0],
        BinanceSpotTickerUpdate::Ticker(row) if row.symbol == "BTCUSDT"
    ));
    assert!(matches!(
        &rows[1],
        BinanceSpotTickerUpdate::Ticker(row) if row.symbol == "ETHUSDT"
    ));
}

#[test]
fn parse_combined_all_market_array_extracts_complete_tickers() {
    let raw = r#"{"stream":"!ticker@arr","data":[{"e":"24hrTicker","E":1720000000000,"s":"BTCUSDT","c":"60000","q":"1000000","b":"59999","B":"2","a":"60001","A":"3","C":1720000000001}]}"#;
    let rows = parse_ticker_updates(raw);
    assert!(matches!(
        rows.as_slice(),
        [BinanceSpotTickerUpdate::Ticker(row)] if row.symbol == "BTCUSDT"
    ));
}

#[test]
fn parse_ticker_update_extracts_realtime_book_ticker() {
    let raw = r#"{
        "u": 400900217,
        "s": "BNBUSDT",
        "b": "25.35190000",
        "B": "31.21000000",
        "a": "25.36520000",
        "A": "40.66000000"
    }"#;
    let parsed = parse_ticker_update(raw).expect("book ticker parses");
    let BinanceSpotTickerUpdate::Book(parsed) = parsed else {
        panic!("expected book ticker");
    };
    assert_eq!(parsed.symbol, "BNBUSDT");
    assert_eq!(parsed.bid_price, "25.35190000");
    assert_eq!(parsed.ask_qty, "40.66000000");
}

#[test]
fn parse_combined_realtime_book_ticker() {
    let raw = r#"{"stream":"solusdt@bookTicker","data":{"u":400900217,"s":"SOLUSDT","b":"150.10","B":"31.21","a":"150.11","A":"40.66"}}"#;
    let parsed = parse_ticker_update(raw).expect("combined book ticker parses");
    assert!(matches!(
        parsed,
        BinanceSpotTickerUpdate::Book(row)
            if row.symbol == "SOLUSDT" && row.bid_price == "150.10"
    ));
}

#[test]
fn binance_ws_spot_ticker_tests_parse_ticker_update_ignores_ack_and_other_events() {
    assert!(parse_ticker_update(r#"{"result":null,"id":17}"#).is_none());
    assert!(parse_ticker_update(r#"{"e":"aggTrade","s":"BTCUSDT"}"#).is_none());
}

#[test]
fn parses_official_subscription_ack_and_error_shapes() {
    assert_eq!(
        parse_control_response(r#"{"result":null,"id":17}"#),
        Some(ControlResponse {
            id: 17,
            code: None,
            message: None,
        })
    );
    assert_eq!(
        parse_control_response(
            r#"{"code":2,"msg":"Invalid request: too many parameters","id":18}"#
        ),
        Some(ControlResponse {
            id: 18,
            code: Some(2),
            message: Some("Invalid request: too many parameters".to_owned()),
        })
    );
}

#[test]
fn control_problem_reports_code_and_message() {
    let both = ControlResponse {
        id: 1,
        code: Some(-2),
        message: Some("bad".to_owned()),
    };
    assert_eq!(both.problem(), Some("code -2 · bad".to_owned()));
    let code_only = ControlResponse {
        id: 1,
        code: Some(2),
        message: None,
    };
    assert_eq!(code_only.problem(), Some("code 2".to_owned()));
    let message_only = ControlResponse {
        id: 1,
        code: None,
        message: Some("slow down".to_owned()),
    };
    assert_eq!(message_only.problem(), Some("slow down".to_owned()));
    let ack = ControlResponse {
        id: 1,
        code: None,
        message: None,
    };
    assert_eq!(ack.problem(), None);
}

#[test]
fn control_response_requires_unsigned_id_and_ignores_mistyped_members() {
    assert_eq!(parse_control_response(r#"{"id":-1}"#), None);
    assert_eq!(parse_control_response(r#"{"id":"1"}"#), None);
    assert_eq!(parse_control_response("not json"), None);
    assert_eq!(
        parse_control_response(r#"{"id":5,"code":"2","msg":3}"#),
        Some(ControlResponse {
            id: 5,
            code: None,
            message: None,
        })
    );
}

#[test]
fn all_market_array_skips_other_event_types_and_falls_back_on_bad_rows() {
    let raw = r#"[{"e":"24hrTicker","s":"A"},{"e":"24hrMiniTicker","s":"B"},{"e":"24hrTicker","s":"C"}]"#;
    let rows = parse_ticker_updates(raw);
    assert_eq!(rows.len(), 2);
    assert!(matches!(&rows[0], BinanceSpotTickerUpdate::Ticker(row) if row.symbol == "A"));
    assert!(matches!(&rows[1], BinanceSpotTickerUpdate::Ticker(row) if row.symbol == "C"));
    // A row with a mistyped field is not a ticker row; the array is no frame.
    assert!(parse_ticker_updates(r#"[{"e":"24hrTicker","E":"1"}]"#).is_empty());
    assert!(parse_ticker_updates("[]").is_empty());
    assert!(parse_ticker_updates("garbage").is_empty());
}

#[test]
fn single_element_array_is_read_as_an_envelope() {
    let rows = parse_ticker_updates(r#"[{"u":7,"s":"XRPUSDT","b":"1","a":"2"}]"#);
    assert!(matches!(
        rows.as_slice(),
        [BinanceSpotTickerUpdate::Book(row)] if row.symbol == "XRPUSDT" && row.ask_price == "2"
    ));
}

#[test]
fn stream_symbols_require_every_entry() {
    assert_eq!(
        stream_symbols(&["btc".to_owned(), "ETH/USDC".to_owned()]),
        Some(vec!["btcusdt".to_owned(), "ethusdc".to_owned()])
    );
    assert_eq!(stream_symbols(&["btc".to_owned(), " ".to_owned()]), None);
    assert_eq!(stream_symbols(&[]), None);
}

#[test]
fn exact_payload_text() {
    assert_eq!(
        subscription_payload("SUBSCRIBE", &["btcusdt".to_owned()], 3),
        r#"{"id":3,"method":"SUBSCRIBE","params":["btcusdt@ticker","btcusdt@bookTicker"]}"#
    );
}

#[test]
fn freshness_window_is_thirty_seconds() {
    assert!(is_fresh(1_000, 31_000));
    assert!(!is_fresh(1_000, 31_001));
    assert!(is_fresh(5_000, 1_000));
    assert!(is_fresh(i64::MAX, i64::MIN));
    assert!(!is_fresh(i64::MIN, i64::MAX));
}
