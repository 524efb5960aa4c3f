use exchange::bitget_uta_config::BitgetUtaCategory;
use exchange::bitget_uta_ws_trade::{
    bitget_trade_heartbeat, bitget_trade_heartbeat_response, checked_request_id, login_outcome,
    login_request, parse_trade_response, request_matcher, trade_request_for, WsTradeRequest,
    MAX_REQUEST_ID_LEN,
};
use exchange::error::ExchangeError;

fn place_request() -> WsTradeRequest {
    trade_request_for(
        "i1",
        BitgetUtaCategory::UsdtFutures,
        "place-order",
        r#"{"clientOid":"cid-1","orderType":"limit","price":"50000","qty":"0.01","side":"buy","symbol":"BTCUSDT"}"#
            .to_owned(),
    )
    .expect("place request")
}

#[test]
fn trade_session_uses_official_text_ping_heartbeat() {
    assert_eq!(bitget_trade_heartbeat(), "ping");
    assert!(bitget_trade_heartbeat_response("pong"));
    assert!(bitget_trade_heartbeat_response(" pong\n"));
    assert!(!bitget_trade_heartbeat_response(r#"{"event":"trade"}"#));
}

#[test]
fn parses_success_response_into_ack_row() {
    let response = parse_trade_response(
        r#"{"event":"trade","id":"i1","topic":"place-order","code":"0","msg":"","args":[{"orderId":"7","clientOid":"cid-1"}]}"#,
    )
    .expect("trade response parses");
    let request = place_request();
    let matcher = request_matcher(&request);
    assert!(response.matches_parts(&matcher));
    let row = response.into_result().expect("ack row parses");
    assert_eq!(row.order_id, "7");
    assert_eq!(row.client_oid, "cid-1");
}

#[test]
fn parses_legacy_data_response_into_ack_row() {
    let response = parse_trade_response(
        r#"{"event":"trade","id":"i1","topic":"place-order","code":"0","msg":"","data":[{"orderId":"8","clientOid":"cid-8"}]}"#,
    )
    .expect("trade response parses");
    let row = response.into_result().expect("ack row parses");

    assert_eq!(row.order_id, "8");
    assert_eq!(row.client_oid, "cid-8");
}

#[test]
fn parses_numeric_zero_code_as_success() {
    let response = parse_trade_response(
        r#"{"op":"trade","id":"i1","topic":"place-order","code":0,"args":[{"orderId":"9","clientOid":"cid-9"}]}"#,
    )
    .expect("numeric-code response parses");
    let row = response.into_result().expect("ack row parses");
    assert_eq!(row.order_id, "9");
}

#[test]
fn surfaces_api_error_on_non_success_code() {
    let response = parse_trade_response(
        r#"{"event":"trade","id":"i1","topic":"place-order","code":"43012","msg":"Insufficient balance"}"#,
    )
    .expect("error response parses");
    let err = response.into_result().unwrap_err();
    match err {
        ExchangeError::Api { code, message, .. } => {
            assert_eq!(code, "43012");
            assert_eq!(message, "Insufficient balance");
        }
        other => panic!("expected API error, got {other:?}"),
    }
}

#[test]
fn matcher_accepts_official_error_event_without_topic() {
    let request = place_request();
    let matcher = request_matcher(&request);
    let response = parse_trade_response(
        r#"{"event":"error","id":"i1","code":"40010","msg":"Request timed out"}"#,
    )
    .expect("official error response parses");

    assert!(response.matches_parts(&matcher));
    assert!(matches!(
        response.into_result(),
        Err(ExchangeError::Api { code, .. }) if code == "40010"
    ));
}

#[test]
fn matcher_rejects_topic_or_id_mismatch() {
    let request = place_request();
    let matcher = request_matcher(&request);
    let foreign_topic = parse_trade_response(
        r#"{"event":"trade","id":"i1","topic":"cancel-order","code":"0","data":[{}]}"#,
    )
    .expect("foreign topic parses");
    assert!(!foreign_topic.matches_parts(&matcher));
    let foreign_id = parse_trade_response(
        r#"{"event":"trade","id":"other","topic":"place-order","code":"0","data":[{}]}"#,
    )
    .expect("foreign id parses");
    assert!(!foreign_id.matches_parts(&matcher));
}

#[test]
fn long_request_ids_are_hashed_to_under_forty_chars() {
    let long = "a".repeat(64);
    let hashed = checked_request_id(&long).expect("hash succeeds");
    assert!(hashed.starts_with("bg-"));
    assert!(hashed.len() <= MAX_REQUEST_ID_LEN);
}

#[test]
fn blank_request_id_is_rejected() {
    let err = checked_request_id("   ").unwrap_err();
    match err {
        ExchangeError::Api { code, .. } => assert_eq!(code, "validation"),
        other => panic!("expected validation error, got {other:?}"),
    }
}

#[test]
fn long_request_id_is_the_sha256_prefix_in_hex() {
    assert_eq!(checked_request_id(&"a".repeat(64)).unwrap(), "bg-ffe054fe7ae0cb6d");
    assert_eq!(checked_request_id(&"x".repeat(41)).unwrap(), "bg-3164596df4fdd018");
}

#[test]
fn request_id_limit_counts_bytes_after_trimming() {
    let forty = "x".repeat(40);
    assert_eq!(checked_request_id(&forty).unwrap(), forty);
    assert_eq!(checked_request_id(&format!("  {forty}\n")).unwrap(), forty);
    assert_eq!(checked_request_id("  i1 \t").unwrap(), "i1");
    // 21 two-byte characters: 42 bytes, over the limit.
    assert_eq!(checked_request_id(&"é".repeat(21)).unwrap(), "bg-5ddeaaa70c40d97f");
}

#[test]
fn blank_request_id_error_names_the_rule() {
    match checked_request_id("") {
        Err(ExchangeError::Api { exchange, code, message }) => {
            assert_eq!(exchange, "bitget");
            assert_eq!(code, "validation");
            assert_eq!(message, "bitget uta ws request id must be non-empty");
        }
        other => panic!("expected validation error, got {other:?}"),
    }
}

#[test]
fn trade_request_serializes_the_flat_v3_envelope() {
    let request = trade_request_for(
        "i1",
        BitgetUtaCategory::UsdtFutures,
        "cancel-order",
        r#"{"clientOid":"cid-1"}"#.to_owned(),
    )
    .unwrap();
    assert_eq!(
        request.to_json(),
        r#"{"op":"trade","id":"i1","category":"usdt-futures","topic":"cancel-order","args":[{"clientOid":"cid-1"}]}"#
    );
    let spot = trade_request_for("i2", BitgetUtaCategory::Spot, "place-order", "{}".to_owned())
        .unwrap();
    assert_eq!(spot.category, "spot");
    assert_eq!(spot.topic, "place-order");
    assert!(trade_request_for(" ", BitgetUtaCategory::Spot, "place-order", "{}".to_owned()).is_err());
}

#[test]
fn login_request_carries_one_argument_object() {
    assert_eq!(
        login_request("k", "p", "1700000000000", "c2ln"),
        r#"{"op":"login","args":[{"apiKey":"k","passphrase":"p","timestamp":"1700000000000","sign":"c2ln"}]}"#
    );
}

#[test]
fn login_outcome_waits_for_the_login_event() {
    assert!(!login_outcome(r#"{"event":"subscribe","code":"0"}"#).unwrap());
    assert!(!login_outcome(r#"{"code":"0"}"#).unwrap());
    assert!(login_outcome(r#"{"event":"login","code":0}"#).unwrap());
    assert!(login_outcome(r#"{"event":"login","code":"0"}"#).unwrap());
    match login_outcome(r#"{"event":"login","code":"30005","msg":"bad sign"}"#) {
        Err(ExchangeError::Api { code, message, .. }) => {
            assert_eq!(code, "30005");
            assert_eq!(message, "bad sign");
        }
        other => panic!("expected API error, got {other:?}"),
    }
    match login_outcome("not json") {
        Err(ExchangeError::Parse(message)) => {
            assert_eq!(message, "bitget uta ws login response: invalid payload; body=not json");
        }
        other => panic!("expected parse error, got {other:?}"),
    }
}

#[test]
fn numeric_and_missing_codes_are_reported_as_text() {
    let numeric = parse_trade_response(
        r#"{"event":"trade","id":"i1","topic":"place-order","code":43012,"msg":"x"}"#,
    )
    .unwrap();
    assert!(matches!(numeric.into_result(), Err(ExchangeError::Api { code, .. }) if code == "43012"));
    let missing = parse_trade_response(r#"{"event":"trade","id":"i1","topic":"place-order"}"#)
        .unwrap();
    assert!(matches!(missing.into_result(), Err(ExchangeError::Api { code, .. }) if code == "unknown"));
}

#[test]
fn success_without_rows_is_a_parse_error() {
    let response = parse_trade_response(r#"{"event":"trade","id":"i1","code":"00000"}"#).unwrap();
    match response.into_result() {
        Err(ExchangeError::Parse(message)) => assert_eq!(message, "bitget uta ws missing ack row"),
        other => panic!("expected parse error, got {other:?}"),
    }
}

#[test]
fn malformed_rows_fail_to_parse() {
    let text = r#"{"event":"trade","id":"i1","code":"0","args":[1]}"#;
    match parse_trade_response(text) {
        Err(ExchangeError::Parse(message)) => assert_eq!(
            message,
            format!("bitget uta ws trade response: invalid payload; body={text}")
        ),
        other => panic!("expected parse error, got {other:?}"),
    }
    assert!(parse_trade_response(r#"{"event":7}"#).is_err());
}
