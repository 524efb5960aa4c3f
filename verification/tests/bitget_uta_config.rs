use exchange::bitget_uta_config::{
    channel_request, BitgetUtaCategory, BitgetUtaWsArgs, DEMO_WS_PRIVATE, DEMO_WS_PUBLIC,
    PROD_WS_PRIVATE, PROD_WS_PUBLIC,
};
use serde_json::Value;

#[test]
fn category_query_is_upper_case() {
    assert_eq!(BitgetUtaCategory::UsdtFutures.as_query(), "USDT-FUTURES");
    assert_eq!(BitgetUtaCategory::UsdcFutures.as_query(), "USDC-FUTURES");
    assert_eq!(BitgetUtaCategory::CoinFutures.as_query(), "COIN-FUTURES");
    assert_eq!(BitgetUtaCategory::Spot.as_query(), "SPOT");
}

#[test]
fn category_ws_inst_type_is_lower_case() {
    assert_eq!(
        BitgetUtaCategory::UsdtFutures.as_ws_inst_type(),
        "usdt-futures"
    );
    assert_eq!(
        BitgetUtaCategory::UsdcFutures.as_ws_inst_type(),
        "usdc-futures"
    );
    assert_eq!(
        BitgetUtaCategory::CoinFutures.as_ws_inst_type(),
        "coin-futures"
    );
    assert_eq!(BitgetUtaCategory::Spot.as_ws_inst_type(), "spot");
}

#[test]
fn ws_args_normalize_symbol_and_inst_type() {
    let args = BitgetUtaWsArgs::new(BitgetUtaCategory::UsdtFutures, "ticker", "btcusdt");
    assert_eq!(args.inst_type, "usdt-futures");
    assert_eq!(args.topic, "ticker");
    assert_eq!(args.symbol, "BTCUSDT");
}

fn text(s: &str) -> Value {
    Value::String(s.to_owned())
}

#[test]
fn ws_args_serialize_matches_v3_shape() {
    let args = BitgetUtaWsArgs::new(BitgetUtaCategory::Spot, "ticker", "BTCUSDT");
    let mut json = String::new();
    args.push_json(&mut json);
    let json: Value = serde_json::from_str(&json).expect("serialize ws args");
    let mut expected = serde_json::Map::new();
    expected.insert("instType".to_owned(), text("spot"));
    expected.insert("topic".to_owned(), text("ticker"));
    expected.insert("symbol".to_owned(), text("BTCUSDT"));
    assert_eq!(json, Value::Object(expected));
}

#[test]
fn ws_endpoints_are_v3() {
    assert!(PROD_WS_PUBLIC.contains("/v3/ws/public"));
    assert!(PROD_WS_PRIVATE.contains("/v3/ws/private"));
    assert!(DEMO_WS_PUBLIC.contains("wspap.bitget.com"));
    assert!(DEMO_WS_PRIVATE.contains("wspap.bitget.com"));
}

#[test]
fn ws_args_declaration_order_text() {
    let args = BitgetUtaWsArgs::new(BitgetUtaCategory::CoinFutures, "books", "ethusd");
    let mut json = String::new();
    args.push_json(&mut json);
    assert_eq!(
        json,
        r#"{"instType":"coin-futures","topic":"books","symbol":"ETHUSD"}"#
    );
}

#[test]
fn channel_request_orders_members_by_key() {
    let args = vec![
        BitgetUtaWsArgs::new(BitgetUtaCategory::Spot, "ticker", "btcusdt"),
        BitgetUtaWsArgs::new(BitgetUtaCategory::UsdcFutures, "ticker", "Eth\"usdc"),
    ];
    assert_eq!(
        channel_request("subscribe", &args),
        r#"{"args":[{"instType":"spot","symbol":"BTCUSDT","topic":"ticker"},{"instType":"usdc-futures","symbol":"ETH\"USDC","topic":"ticker"}],"op":"subscribe"}"#
    );
    assert_eq!(channel_request("unsubscribe", &Vec::new()), r#"{"args":[],"op":"unsubscribe"}"#);
}
