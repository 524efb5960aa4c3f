use exchange::bitget_uta_config::BitgetUtaCategory;
use exchange::bitget_uta_trade_data::{
    bitget_order_shape, bitget_side, cancel_order_body, live_state_from_order_status, TimeInForce,
};
use exchange::error::ExchangeError;
use exchange::orders::{LiveOrderState, OrderSide, OrderStatus, OrderType};
use serde_json::Value;

#[test]
fn cancel_body_carries_category_and_optional_order_id() {
    let json = cancel_order_body(
        BitgetUtaCategory::UsdtFutures,
        "BTCUSDT",
        &Some("oid-1".to_owned()),
        "cid-1",
    );
    let value: Value = serde_json::from_str(&json).expect("json parses");
    assert_eq!(value["category"], "USDT-FUTURES");
    assert_eq!(value["symbol"], "BTCUSDT");
    assert_eq!(value["orderId"], "oid-1");
    assert_eq!(value["clientOid"], "cid-1");
}

#[test]
fn cancel_body_omits_order_id_when_client_oid_only() {
    let json = cancel_order_body(BitgetUtaCategory::UsdtFutures, "BTCUSDT", &None, "cid-1");
    let value: Value = serde_json::from_str(&json).expect("json parses");
    assert!(value.get("orderId").is_none());
    assert_eq!(value["clientOid"], "cid-1");
}

#[test]
fn limit_time_in_force_variants_preserve_time_in_force() {
    for (time_in_force, expected) in [(TimeInForce::Gtc, "gtc"), (TimeInForce::Fok, "fok")] {
        let shape = bitget_order_shape(OrderType::Limit, time_in_force, Some("50000".to_owned()))
            .expect("limit shape");
        assert_eq!(shape.order_type, "limit");
        assert_eq!(shape.time_in_force, Some(expected));
    }
}

#[test]
fn limit_gtx_uses_post_only_time_in_force() {
    let shape = bitget_order_shape(OrderType::Limit, TimeInForce::Gtx, Some("50000".to_owned()))
        .expect("limit shape");
    assert_eq!(shape.order_type, "limit");
    assert_eq!(shape.time_in_force, Some("post_only"));
}

#[test]
fn market_order_omits_price_and_time_in_force() {
    let shape = bitget_order_shape(OrderType::Market, TimeInForce::Ioc, Some("1".to_owned()))
        .expect("market shape");
    assert_eq!(shape.order_type, "market");
    assert!(shape.price.is_none());
    assert!(shape.time_in_force.is_none());
}

#[test]
fn post_only_uses_post_only_time_in_force() {
    let shape = bitget_order_shape(OrderType::PostOnly, TimeInForce::Gtc, Some("50000".to_owned()))
        .expect("post only shape");
    assert_eq!(shape.order_type, "limit");
    assert_eq!(shape.time_in_force, Some("post_only"));
    assert_eq!(shape.price.as_deref(), Some("50000"));
}

#[test]
fn limit_order_without_price_is_refused() {
    let error = bitget_order_shape(OrderType::Limit, TimeInForce::Gtc, None).unwrap_err();
    match error {
        ExchangeError::Api { code, message, .. } => {
            assert_eq!(code, "validation");
            assert_eq!(message, "bitget limit order requires price");
        }
        other => panic!("unexpected error {other:?}"),
    }
}

#[test]
fn sides_and_looked_up_statuses_map_to_the_venue_names() {
    assert_eq!(bitget_side(OrderSide::Buy), "buy");
    assert_eq!(bitget_side(OrderSide::Sell), "sell");
    assert_eq!(live_state_from_order_status(OrderStatus::Open), LiveOrderState::Accepted);
    assert_eq!(live_state_from_order_status(OrderStatus::Expired), LiveOrderState::Failed);
    assert_eq!(live_state_from_order_status(OrderStatus::Canceled), LiveOrderState::Cancelled);
}
