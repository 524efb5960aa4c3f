use exchange::bitget_uta_ws_spot_ticker::{
    channel_payload, parse_ticker_update, parse_ticker_update_at, quote_volume, stream_symbols,
    symbol_from_row, SpotTickerItem,
};
use serde_json::Value;

#[test]
fn channel_payload_uses_v3_spot_args_shape() {
    let payload = channel_payload("subscribe", &["BTCUSDT".to_owned(), "ETHUSDC".to_owned()]);
    let value: Value = serde_json::from_str(&payload).unwrap();
    assert_eq!(value["op"], "subscribe");
    let args = value["args"].as_array().expect("args is an array");
    assert_eq!(args.len(), 2);
    for arg in args {
        assert_eq!(arg["instType"], "spot");
        assert_eq!(arg["topic"], "ticker");
        assert!(matches!(
            arg["symbol"].as_str(),
            Some("BTCUSDT" | "ETHUSDC")
        ));
    }
}

#[test]
fn stream_symbols_normalize_pair_inputs() {
    let rows = stream_symbols(&[
        "BTC".to_owned(),
        "eth/usdt".to_owned(),
        "sol-usdc".to_owned(),
    ])
    .expect("symbols normalize");
    assert_eq!(rows, vec!["BTCUSDT", "ETHUSDT", "SOLUSDC"]);
    assert!(stream_symbols(&[]).is_none());
    assert!(stream_symbols(&["".to_owned()]).is_none());
}

#[test]
fn parse_ticker_update_extracts_official_spot_payload() {
    let raw = r#"{
      "data": [
        {
          "bid1Price": "99999",
          "lowPrice24h": "98200",
          "ask1Size": "188.312553",
          "volume24h": "37.722858",
          "price24hPcnt": "0.01833",
          "highPrice24h": "100000",
          "turnover24h": "3750302.979626",
          "bid1Size": "186.183209",
          "ask1Price": "100000",
          "openPrice24h": "0",
          "lastPrice": "100000"
        }
      ],
      "arg": {
        "instType": "spot",
        "symbol": "BTCUSDT",
        "topic": "ticker"
      },
      "action": "snapshot",
      "ts": 1736371332162
    }"#;
    let rows = parse_ticker_update(raw);
    assert_eq!(rows.len(), 1);
    assert_eq!(rows[0].item.symbol, "BTCUSDT");
    assert_eq!(rows[0].item.bid1_price, "99999");
    assert_eq!(rows[0].item.ask1_price, "100000");
    assert_eq!(rows[0].item.bid1_size, "186.183209");
    assert_eq!(rows[0].item.ask1_size, "188.312553");
    assert_eq!(rows[0].data_timestamp_ms, 1_736_371_332_162);
}

#[test]
fn parse_ticker_update_ignores_non_spot_topics() {
    assert!(parse_ticker_update(
        r#"{"event":"subscribe","arg":{"instType":"spot","topic":"ticker","symbol":"BTCUSDT"}}"#
    )
    .is_empty());
    assert!(parse_ticker_update(r#"{"arg":{"instType":"usdt-futures","topic":"ticker","symbol":"BTCUSDT"},"data":[{"lastPrice":"1"}]}"#).is_empty());
    assert!(parse_ticker_update(r#"{"arg":{"instType":"spot","topic":"books","symbol":"BTCUSDT"},"data":[{"lastPrice":"1"}]}"#).is_empty());
}

fn item(symbol: &str, volume: &str, turnover: &str) -> SpotTickerItem {
    SpotTickerItem {
        symbol: symbol.into(),
        last_price: "1".into(),
        bid1_price: "1".into(),
        ask1_price: "1".into(),
        bid1_size: "1".into(),
        ask1_size: "1".into(),
        volume_24h: volume.into(),
        turnover_24h: turnover.into(),
        ts: String::new(),
    }
}

#[test]
fn quote_volume_falls_back_to_base_when_turnover_missing() {
    let item = item("ETHUSDT", "42", "");
    assert_eq!(quote_volume(&item), "42");
}

#[test]
fn quote_volume_prefers_turnover_and_treats_blank_as_missing() {
    assert_eq!(quote_volume(&item("ETHUSDT", "42", "99")), "99");
    assert_eq!(quote_volume(&item("ETHUSDT", "42", " \t")), "42");
}

#[test]
fn rows_take_their_own_symbol_and_time_when_present() {
    let raw = r#"{"arg":{"instType":"spot","topic":"ticker","symbol":"btcusdt"},
        "data":[{"symbol":"ethusdt","ts":"17"},{"lastPrice":"2"},{"symbol":" ","ts":"x"}],"ts":9}"#;
    let rows = parse_ticker_update_at(raw, 100);
    assert_eq!(rows.len(), 3);
    assert_eq!(rows[0].item.symbol, "ETHUSDT");
    assert_eq!(rows[0].data_timestamp_ms, 17);
    assert_eq!(rows[1].item.symbol, "BTCUSDT");
    assert_eq!(rows[1].data_timestamp_ms, 9);
    assert_eq!(rows[2].item.symbol, "BTCUSDT");
    assert_eq!(rows[2].data_timestamp_ms, 9);
    assert!(rows.iter().all(|row| row.cached_at_ms == 100));
}

#[test]
fn rows_without_any_symbol_are_dropped_and_missing_ts_uses_arrival() {
    let raw = r#"{"arg":{"instType":"spot","topic":"ticker"},"data":[{"lastPrice":"1"},{"symbol":"solusdc"}]}"#;
    let rows = parse_ticker_update_at(raw, 55);
    assert_eq!(rows.len(), 1);
    assert_eq!(rows[0].item.symbol, "SOLUSDC");
    assert_eq!(rows[0].data_timestamp_ms, 55);
    assert!(parse_ticker_update_at(r#"{"arg":null,"data":[{"symbol":"X"}]}"#, 1).is_empty());
    assert!(parse_ticker_update_at(r#"{"arg":{"instType":"spot","topic":"ticker"},"data":[{"symbol":1}]}"#, 1).is_empty());
}

#[test]
fn symbol_from_row_prefers_the_row() {
    assert_eq!(symbol_from_row("ethusdt", "BTCUSDT"), Some("ETHUSDT".to_owned()));
    assert_eq!(symbol_from_row("", "btcusdt"), Some("BTCUSDT".to_owned()));
    assert_eq!(symbol_from_row(" ", " "), None);
}
