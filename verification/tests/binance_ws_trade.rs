use exchange::binance_ws_trade::{
    binance_order_status, binance_order_type, binance_side, binance_spot_order_type,
    listen_key_from_response, live_state_from_status, parse_response, spot_order_id, spot_order_type,
    spot_side, stream_closed,
    WsResponse, METHOD_USER_STREAM_PING, METHOD_USER_STREAM_START, METHOD_USER_STREAM_STOP,
};
use exchange::error::ExchangeError;
use exchange::orders::{LiveOrderState, OrderSide, OrderStatus, OrderType};

#[test]
fn parses_success_response_to_ack() {
    let response =
        match parse_response(r#"{"id":"i1","status":200,"result":{"orderId":7,"status":"NEW"}}"#)
            .and_then(WsResponse::into_result)
        {
            Ok(result) => result,
            Err(error) => panic!("ws success result: {}", error.to_text()),
        };

    assert_eq!(response.order_id, 7);
    assert_eq!(response.status, "NEW");
    assert_eq!(live_state_from_status(&response.status), LiveOrderState::Accepted);
}

#[test]
fn error_response_reports_the_venue_code_and_message() {
    let response = parse_response(
        r#"{"id":"i1","status":400,"error":{"code":-2010,"msg":"Account has insufficient balance"}}"#,
    )
    .unwrap();
    match response.into_result() {
        Err(ExchangeError::Api { exchange, code, message }) => {
            assert_eq!(exchange, "binance");
            assert_eq!(code, "-2010");
            assert_eq!(message, "Account has insufficient balance");
        }
        other => panic!("expected API error, got {other:?}"),
    }
    let bare = parse_response(r#"{"status":503}"#).unwrap();
    match bare.into_result() {
        Err(ExchangeError::Api { code, message, .. }) => {
            assert_eq!(code, "0");
            assert_eq!(message, "");
        }
        other => panic!("expected API error, got {other:?}"),
    }
}

#[test]
fn success_without_result_is_a_parse_error() {
    let response = parse_response(r#"{"id":"i1","status":200,"result":null}"#).unwrap();
    match response.into_result() {
        Err(ExchangeError::Parse(message)) => assert_eq!(message, "binance ws missing result"),
        other => panic!("expected parse error, got {other:?}"),
    }
}

#[test]
fn malformed_order_responses_fail_to_parse() {
    for text in [
        "not json",
        r#"{"id":"i1"}"#,
        r#"{"status":70000}"#,
        r#"{"status":200,"result":{"orderId":"7","status":"NEW"}}"#,
        r#"{"status":200,"result":{"orderId":7}}"#,
    ] {
        match parse_response(text) {
            Err(ExchangeError::Parse(message)) => assert_eq!(
                message,
                format!("binance ws trade response: invalid payload; body={text}")
            ),
            other => panic!("expected parse error for {text}, got {other:?}"),
        }
    }
}

#[test]
fn listen_key_is_read_from_start_and_ping_results() {
    assert_eq!(
        listen_key_from_response(
            r#"{"id":"s1","status":200,"result":{"listenKey":"xs0mRXdAKlIPDRFrlPcw0qI41Eh3ixNntmymGyhrhgqo7L6FuLaWArTD7RLP"}}"#,
            METHOD_USER_STREAM_START,
        )
        .unwrap(),
        "xs0mRXdAKlIPDRFrlPcw0qI41Eh3ixNntmymGyhrhgqo7L6FuLaWArTD7RLP"
    );
    assert_eq!(
        listen_key_from_response(
            r#"{"id":"p1","status":200,"result":{"listenKey":"k1"}}"#,
            METHOD_USER_STREAM_PING,
        )
        .unwrap(),
        "k1"
    );
}

#[test]
fn blank_or_missing_listen_key_is_rejected() {
    for text in [
        r#"{"id":"s1","status":200,"result":{"listenKey":"   "}}"#,
        r#"{"id":"s1","status":200,"result":{}}"#,
    ] {
        match listen_key_from_response(text, METHOD_USER_STREAM_START) {
            Err(ExchangeError::Parse(message)) => {
                assert_eq!(message, "binance ws userDataStream.start missing listenKey")
            }
            other => panic!("expected parse error, got {other:?}"),
        }
    }
    match listen_key_from_response(r#"{"id":"s1","status":200}"#, METHOD_USER_STREAM_START) {
        Err(ExchangeError::Parse(message)) => {
            assert_eq!(message, "binance ws userDataStream.start missing result")
        }
        other => panic!("expected parse error, got {other:?}"),
    }
    match listen_key_from_response(
        r#"{"id":"s1","status":401,"error":{"code":-2015,"msg":"Invalid API-key"}}"#,
        METHOD_USER_STREAM_START,
    ) {
        Err(ExchangeError::Api { code, .. }) => assert_eq!(code, "-2015"),
        other => panic!("expected API error, got {other:?}"),
    }
}

#[test]
fn stream_stop_needs_a_result() {
    assert!(stream_closed(r#"{"id":"c1","status":200,"result":{}}"#, METHOD_USER_STREAM_STOP).is_ok());
    match stream_closed(r#"{"id":"c1","status":200,"result":null}"#, METHOD_USER_STREAM_STOP) {
        Err(ExchangeError::Parse(message)) => {
            assert_eq!(message, "binance ws userDataStream.stop missing result")
        }
        other => panic!("expected parse error, got {other:?}"),
    }
    match stream_closed("[]", METHOD_USER_STREAM_STOP) {
        Err(ExchangeError::Parse(message)) => {
            assert_eq!(message, "binance ws response: invalid payload; body=[]")
        }
        other => panic!("expected parse error, got {other:?}"),
    }
}

#[test]
fn venue_statuses_map_to_order_statuses() {
    assert_eq!(binance_order_status("NEW"), OrderStatus::Open);
    assert_eq!(binance_order_status("PENDING_NEW"), OrderStatus::Open);
    assert_eq!(binance_order_status("PARTIALLY_FILLED"), OrderStatus::PartiallyFilled);
    assert_eq!(binance_order_status("FILLED"), OrderStatus::Filled);
    assert_eq!(binance_order_status("PENDING_CANCEL"), OrderStatus::Canceled);
    assert_eq!(binance_order_status("REJECTED"), OrderStatus::Rejected);
    assert_eq!(binance_order_status("EXPIRED_IN_MATCH"), OrderStatus::Expired);
    assert_eq!(binance_order_status("new"), OrderStatus::Pending);
}

#[test]
fn acknowledged_states_ignore_letter_case() {
    assert_eq!(live_state_from_status("partially_filled"), LiveOrderState::PartiallyFilled);
    assert_eq!(live_state_from_status("Filled"), LiveOrderState::Filled);
    assert_eq!(live_state_from_status("canceled"), LiveOrderState::Cancelled);
    assert_eq!(live_state_from_status("CANCELLED"), LiveOrderState::Cancelled);
    assert_eq!(live_state_from_status("REJECTED"), LiveOrderState::Rejected);
    assert_eq!(live_state_from_status("expired"), LiveOrderState::Failed);
    assert_eq!(live_state_from_status("EXPIRED_IN_MATCH"), LiveOrderState::Unknown);
}

#[test]
fn spot_order_ids_must_be_numeric() {
    assert_eq!(spot_order_id(" 123 ").unwrap(), 123);
    assert_eq!(spot_order_id("+9").unwrap(), 9);
    for raw in ["abc", "", "-1", "18446744073709551616"] {
        match spot_order_id(raw) {
            Err(ExchangeError::Parse(message)) => {
                assert_eq!(message, "binance spot orderId must be numeric")
            }
            other => panic!("expected parse error, got {other:?}"),
        }
    }
}

#[test]
fn order_names_follow_the_venue_schema() {
    assert_eq!(binance_side(OrderSide::Buy), "BUY");
    assert_eq!(binance_side(OrderSide::Sell), "SELL");
    assert_eq!(binance_order_type(OrderType::PostOnly), "LIMIT");
    assert_eq!(binance_order_type(OrderType::Market), "MARKET");
    assert_eq!(binance_spot_order_type(OrderType::PostOnly), "LIMIT_MAKER");
    assert_eq!(binance_spot_order_type(OrderType::Limit), "LIMIT");
}

#[test]
fn spot_order_fields_are_read_strictly() {
    assert_eq!(spot_side("BUY").unwrap(), OrderSide::Buy);
    assert_eq!(spot_side("SELL").unwrap(), OrderSide::Sell);
    match spot_side("buy") {
        Err(ExchangeError::Parse(message)) => assert_eq!(message, "binance spot side: buy"),
        other => panic!("expected parse error, got {other:?}"),
    }
    assert_eq!(spot_order_type("LIMIT_MAKER").unwrap(), OrderType::PostOnly);
    assert_eq!(spot_order_type("LIMIT").unwrap(), OrderType::Limit);
    assert_eq!(spot_order_type("MARKET").unwrap(), OrderType::Market);
    match spot_order_type("STOP_LOSS") {
        Err(ExchangeError::Parse(message)) => {
            assert_eq!(message, "binance spot order type: STOP_LOSS")
        }
        other => panic!("expected parse error, got {other:?}"),
    }
}
