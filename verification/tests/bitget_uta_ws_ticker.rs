use exchange::bitget_uta_ws_ticker_data::{
    channel_payload, parse_ticker_update, parse_ticker_update_at, stream_symbol,
};
use serde_json::Value;

#[test]
fn channel_payload_uses_v3_args_shape() {
    let payload = channel_payload("subscribe", &["BTCUSDT".to_owned(), "ETHUSDT".to_owned()]);
    let value: Value = serde_json::from_str(&payload).unwrap();
    assert_eq!(value["op"], "subscribe");
    let args = value["args"].as_array().expect("args is an array");
    assert_eq!(args.len(), 2);
    for arg in args {
        assert_eq!(arg["instType"], "usdt-futures");
        assert_eq!(arg["topic"], "ticker");
        assert!(matches!(
            arg["symbol"].as_str(),
            Some("BTCUSDT" | "ETHUSDT")
        ));
    }
}

#[test]
fn parse_ticker_update_ignores_non_ticker_topics() {
    // Books frames must not feed the ticker cache.
    let raw = r#"{"arg":{"topic":"books","symbol":"BTCUSDT"},"data":[{"a":[],"b":[]}]}"#;
    assert!(parse_ticker_update(raw).is_empty());
    // Subscribe ack carries no `data`.
    let ack = r#"{"event":"subscribe","arg":{"instType":"usdt-futures","topic":"ticker","symbol":"BTCUSDT"}}"#;
    assert!(parse_ticker_update(ack).is_empty());
    // Frames without an arg symbol cannot be keyed and must be dropped.
    let no_symbol = r#"{"arg":{"topic":"ticker"},"data":[{"lastPrice":"1"}],"ts":1}"#;
    assert!(parse_ticker_update(no_symbol).is_empty());
}

#[test]
fn ticker_rows_take_symbol_and_ts_from_envelope() {
    let raw = r#"{
        "action":"snapshot",
        "arg":{"instType":"usdt-futures","topic":"ticker","symbol":"BTCUSDT"},
        "data":[{
            "highPrice24h":"64915.3","lowPrice24h":"64216.3","openPrice24h":"64274.5",
            "lastPrice":"64652","turnover24h":"924214758.208","volume24h":"14324.8359",
            "bid1Price":"64652","ask1Price":"64652.1","bid1Size":"3.4742","ask1Size":"2.3549",
            "price24hPcnt":"0.00587","indexPrice":"64687.8815","markPrice":"64655.5",
            "fundingRate":"-0.000023","openInterest":"36201.7054","deliveryTime":"",
            "deliveryStartTime":"","deliveryStatus":"","nextFundingTime":"1785110400000"
        }],
        "ts":1785088069374
    }"#;
    let rows = parse_ticker_update(raw);
    assert_eq!(rows.len(), 1);
    assert_eq!(rows[0].symbol, "BTCUSDT");
    assert_eq!(rows[0].ts_ms, 1_785_088_069_374);
    assert_eq!(rows[0].item.bid1_price, "64652");
    assert_eq!(rows[0].item.ask1_price, "64652.1");
    assert_eq!(rows[0].item.turnover_24h, "924214758.208");
    assert_eq!(rows[0].item.next_funding_time, "1785110400000");
}

#[test]
fn frames_without_ts_are_stamped_with_arrival_and_bad_rows_drop_the_frame() {
    let raw = r#"{"arg":{"topic":"ticker","symbol":"ETHUSDT"},"data":[{"lastPrice":"1"},{"markPrice":"2"}]}"#;
    let rows = parse_ticker_update_at(raw, 77);
    assert_eq!(rows.len(), 2);
    assert!(rows.iter().all(|row| row.ts_ms == 77 && row.cached_at_ms == 77));
    assert_eq!(rows[1].item.mark_price, "2");
    let bad = r#"{"arg":{"topic":"ticker","symbol":"ETHUSDT"},"data":[{"lastPrice":1}]}"#;
    assert!(parse_ticker_update_at(bad, 77).is_empty());
    let no_arg = r#"{"data":[{"lastPrice":"1"}]}"#;
    assert!(parse_ticker_update_at(no_arg, 77).is_empty());
}

#[test]
fn stream_symbol_appends_usdt_to_the_base() {
    assert_eq!(stream_symbol("BTC"), "BTCUSDT");
    assert_eq!(stream_symbol("BTCUSDT"), "BTCUSDT");
    assert_eq!(stream_symbol("ETHUSDC"), "ETHUSDT");
}
