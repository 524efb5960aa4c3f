use exchange::bitget_config::{BitgetConfig, BitgetMarginMode};
use exchange::bitget_order_compiler::{
    position_fields, validate_execution_boundary, BitgetPositionMode,
};
use exchange::bitget_response::{
    api_error_from_body, ensure_ok, BitgetObjectResponse, BitgetResponse,
};
use exchange::bitget_uta_config::BitgetUtaCategory;
use exchange::error::ExchangeError;
use exchange::orders::OrderSide;

#[test]
fn margin_mode_string_mapping() {
    assert_eq!(BitgetMarginMode::Crossed.as_str(), "crossed");
    assert_eq!(BitgetMarginMode::Isolated.as_str(), "isolated");
}

#[test]
fn success_code_is_00000_not_0() {
    let wrap: BitgetResponse<u32> = BitgetResponse {
        code: "00000".to_owned(),
        msg: "success".to_owned(),
        data: Vec::new(),
    };
    assert!(wrap.into_data("tickers").is_ok());

    let wrap: BitgetResponse<u32> = BitgetResponse {
        code: "40001".to_owned(),
        msg: "bad".to_owned(),
        data: Vec::new(),
    };
    assert!(matches!(
        wrap.into_data("tickers").unwrap_err(),
        ExchangeError::Api { .. }
    ));
}

#[test]
fn ensure_ok_reports_the_operation_and_message() {
    assert!(ensure_ok("00000", "success", "orders").is_ok());
    let error = ensure_ok("0", "looks like success", "orders").unwrap_err();
    assert_eq!(error.to_text(), "bitget api error 0: orders: looks like success");
}

#[test]
fn object_responses_require_data_when_asked() {
    let present = BitgetObjectResponse {
        code: "00000".to_owned(),
        msg: String::new(),
        data: Some(7u8),
    };
    assert_eq!(present.into_result("balance").unwrap(), 7);
    let absent: BitgetObjectResponse<u8> = BitgetObjectResponse {
        code: "00000".to_owned(),
        msg: String::new(),
        data: None,
    };
    assert_eq!(
        absent.into_result("balance").unwrap_err().to_text(),
        "parse error: bitget balance: empty data"
    );
    let optional: BitgetObjectResponse<u8> = BitgetObjectResponse {
        code: "00000".to_owned(),
        msg: String::new(),
        data: None,
    };
    assert_eq!(optional.into_option("balance").unwrap(), None);
}

#[test]
fn error_bodies_become_api_errors() {
    let error = api_error_from_body(r#"{"code":"40725","msg":"margin mode mismatch"}"#, "place")
        .expect("api error");
    assert_eq!(error.to_text(), "bitget api error 40725: place: margin mode mismatch");
    assert!(api_error_from_body(r#"{"code":"00000","msg":"success"}"#, "place").is_none());
    assert!(api_error_from_body(r#"{"code":40725}"#, "place").is_none());
    assert!(api_error_from_body("<html>", "place").is_none());
}

#[test]
fn config_defaults_are_read_only_and_crossed() {
    let config = BitgetConfig::from_venue_defaults(10, 20);
    assert!(config.credentials.is_none());
    assert!(!config.allow_live_writes);
    assert_eq!(config.timeout_secs, 10);
    assert_eq!(config.qps, 20);
    assert!(config.base_url_override.is_none());
    assert_eq!(config.margin_mode, BitgetMarginMode::Crossed);
    assert_eq!(BitgetMarginMode::default(), BitgetMarginMode::Crossed);
}

#[test]
fn hold_mode_round_trips_and_rejects_unknown_values() {
    for mode in [BitgetPositionMode::OneWay, BitgetPositionMode::Hedge] {
        assert_eq!(BitgetPositionMode::parse(mode.as_str()).unwrap(), mode);
    }
    let error = BitgetPositionMode::parse("double_mode").unwrap_err();
    assert_eq!(
        error.to_text(),
        "bitget api error validation: unsupported Bitget holdMode \"double_mode\""
    );
}

#[test]
fn hedge_mode_derives_all_open_close_pos_side_combinations_of_fields() {
    for (side, reduce_only, expected) in [
        (OrderSide::Buy, false, "long"),
        (OrderSide::Sell, false, "short"),
        (OrderSide::Sell, true, "long"),
        (OrderSide::Buy, true, "short"),
    ] {
        let (pos_side, reduce) = position_fields(BitgetPositionMode::Hedge, side, reduce_only);
        assert_eq!(pos_side, Some(expected));
        assert!(!reduce);
    }
    assert_eq!(
        position_fields(BitgetPositionMode::OneWay, OrderSide::Sell, true),
        (None, true)
    );
}

#[test]
fn execution_boundary_fails_closed_in_check_order() {
    assert!(validate_execution_boundary(BitgetUtaCategory::UsdtFutures, "BTCUSDT", true, true).is_ok());
    assert!(validate_execution_boundary(BitgetUtaCategory::Spot, "BTCUSDT", true, true).is_ok());
    let inverse =
        validate_execution_boundary(BitgetUtaCategory::CoinFutures, "BTCUSD", false, false)
            .unwrap_err();
    assert!(inverse.to_text().contains("BTCUSD is observation-only"));
    let category =
        validate_execution_boundary(BitgetUtaCategory::CoinFutures, "BTCUSD", true, false)
            .unwrap_err();
    assert!(category.to_text().contains("category is not an executable UTA product"));
    let offline =
        validate_execution_boundary(BitgetUtaCategory::UsdcFutures, "ETHPERP", true, false)
            .unwrap_err();
    assert!(offline.to_text().contains("ETHPERP is not online for execution"));
}
