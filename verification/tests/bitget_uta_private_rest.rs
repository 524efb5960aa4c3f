use exchange::bitget_uta_private_rest::{
    account_hold_mode, bitget_safe_cancel_nonmatch, check_order_permissions, checked_hold_mode,
    contains_str, is_unknown_place_result, required_order_query_id, safe_cancel_probe_outcome,
    validate_order_permissions,
};
use exchange::error::ExchangeError;

const SETTINGS_PATH: &str = "/api/v3/account/settings";
const INFO_PATH: &str = "/api/v3/account/info";

fn api(exchange: &str, code: &str, message: &str) -> ExchangeError {
    ExchangeError::Api {
        exchange: exchange.to_owned(),
        code: code.to_owned(),
        message: message.to_owned(),
    }
}

#[test]
fn account_hold_mode_reads_official_uta_settings_path() {
    assert_eq!(
        account_hold_mode(
            r#"{"code":"00000","msg":"success","data":{"holdMode":"hedge_mode"}}"#,
            SETTINGS_PATH,
        )
        .expect("official UTA settings holdMode parses"),
        "hedge_mode"
    );
}

#[test]
fn account_hold_mode_rejects_unknown_semantics() {
    let result = account_hold_mode(
        r#"{"code":"00000","msg":"success","data":{"holdMode":"portfolio"}}"#,
        SETTINGS_PATH,
    );
    assert!(result.is_err());
    match result {
        Err(ExchangeError::Parse(message)) => assert_eq!(
            message,
            "bitget account settings has unsupported holdMode \"portfolio\""
        ),
        other => panic!("expected parse error, got {other:?}"),
    }
}

#[test]
fn account_hold_mode_reports_each_failure() {
    match account_hold_mode("<html>", SETTINGS_PATH) {
        Err(ExchangeError::Parse(message)) => assert_eq!(
            message,
            "bitget signed GET json at /api/v3/account/settings: invalid payload"
        ),
        other => panic!("expected parse error, got {other:?}"),
    }
    match account_hold_mode(r#"{"code":"00000","data":{"mode":"x"}}"#, SETTINGS_PATH) {
        Err(ExchangeError::Parse(message)) => assert_eq!(
            message,
            "bitget signed GET schema at /api/v3/account/settings: invalid payload"
        ),
        other => panic!("expected parse error, got {other:?}"),
    }
    match account_hold_mode(r#"{"code":"40009","msg":"sign error","data":null}"#, SETTINGS_PATH) {
        Err(ExchangeError::Api { code, message, .. }) => {
            assert_eq!(code, "40009");
            assert_eq!(message, "account settings: sign error");
        }
        other => panic!("expected API error, got {other:?}"),
    }
    match account_hold_mode(r#"{"code":"00000","msg":"success","data":null}"#, SETTINGS_PATH) {
        Err(ExchangeError::Parse(message)) => {
            assert_eq!(message, "bitget account settings: empty data")
        }
        other => panic!("expected parse error, got {other:?}"),
    }
}

#[test]
fn account_info_proves_uta_trade_read_write_for_documented_and_live_spellings() {
    for permission_type in ["read-and-write", "read_and_write"] {
        let body = format!(
            r#"{{"code":"00000","msg":"success","data":{{"permType":"{permission_type}","permissions":["uta_mgt","uta_trade"]}}}}"#
        );
        validate_order_permissions(&body, INFO_PATH)
            .expect("UTA trade read/write permission is explicit");
    }
}

#[test]
fn account_info_rejects_read_only_trade_permission() {
    assert!(matches!(
        validate_order_permissions(
            r#"{"code":"00000","msg":"success","data":{"permType":"read-only","permissions":["uta_trade"]}}"#,
            INFO_PATH,
        ),
        Err(ExchangeError::Api { code, .. }) if code == "api_trading_disabled"
    ));
}

#[test]
fn permission_check_needs_both_the_type_and_the_scope() {
    let scopes = vec!["uta_mgt".to_owned(), " UTA_TRADE ".to_owned()];
    assert!(check_order_permissions("ReadAndWrite", &scopes).is_ok());
    match check_order_permissions("read-and-write", &vec!["uta_mgt".to_owned()]) {
        Err(ExchangeError::Api { exchange, code, message }) => {
            assert_eq!(exchange, "bitget");
            assert_eq!(code, "api_trading_disabled");
            assert_eq!(
                message,
                "account info does not grant UTA trade read/write permission: permType=\"read-and-write\", uta_trade=false"
            );
        }
        other => panic!("expected API error, got {other:?}"),
    }
    match check_order_permissions("readonly", &scopes) {
        Err(ExchangeError::Api { message, .. }) => assert_eq!(
            message,
            "account info does not grant UTA trade read/write permission: permType=\"readonly\", uta_trade=true"
        ),
        other => panic!("expected API error, got {other:?}"),
    }
    assert!(matches!(
        validate_order_permissions(
            r#"{"code":"00000","data":{"permType":"read-and-write","permissions":[1]}}"#,
            INFO_PATH,
        ),
        Err(ExchangeError::Parse(message))
            if message == "bitget signed GET schema at /api/v3/account/info: invalid payload"
    ));
    assert!(matches!(
        validate_order_permissions(r#"{"code":"00000","data":{"permType":"read-and-write"}}"#, INFO_PATH),
        Err(ExchangeError::Api { code, .. }) if code == "api_trading_disabled"
    ));
}

#[test]
fn unknown_place_results_are_the_timeout_and_internal_codes() {
    for code in ["40010", "40725", "45001"] {
        assert!(is_unknown_place_result(&api("bitget", code, "x")));
    }
    assert!(!is_unknown_place_result(&api("bitget", "43012", "x")));
    assert!(!is_unknown_place_result(&api("binance", "40010", "x")));
    assert!(!is_unknown_place_result(&ExchangeError::Network("40010".to_owned())));
}

#[test]
fn safe_cancel_probe_treats_unknown_order_as_nonmatching_evidence() {
    assert!(safe_cancel_probe_outcome(Err(api("bitget", "25204", "Order does not exist"))).is_ok());
    assert!(bitget_safe_cancel_nonmatch(&api("bitget", "1", "The order NOT FOUND")));
    assert!(!bitget_safe_cancel_nonmatch(&api("bitget", "1", "insufficient balance")));
    assert!(!bitget_safe_cancel_nonmatch(&ExchangeError::Parse("not found".to_owned())));
}

#[test]
fn safe_cancel_probe_rejects_unexpected_2xx_collision() {
    match safe_cancel_probe_outcome(Ok(())) {
        Err(ExchangeError::Api { code, message, .. }) => {
            assert_eq!(code, "safe_cancel_collision");
            assert_eq!(
                message,
                "bitget safe cancel probe unexpectedly matched an order; no-match evidence rejected"
            );
        }
        other => panic!("expected collision, got {other:?}"),
    }
    match safe_cancel_probe_outcome(Err(api("bitget", "40009", "sign error"))) {
        Err(ExchangeError::Api { code, .. }) => assert_eq!(code, "40009"),
        other => panic!("expected the venue error, got {other:?}"),
    }
}

#[test]
fn substring_search_finds_every_position() {
    assert!(contains_str("order does not exist", "not exist"));
    assert!(contains_str("abc", ""));
    assert!(contains_str("abc", "abc"));
    assert!(!contains_str("ab", "abc"));
    assert!(!contains_str("aab", "abb"));
}

#[test]
fn order_query_ids_are_trimmed_and_required() {
    assert_eq!(required_order_query_id("orderId", " 123 ").unwrap(), "123");
    match required_order_query_id("orderId", "  ") {
        Err(ExchangeError::Parse(message)) => assert_eq!(message, "bitget orderId must not be empty"),
        other => panic!("expected parse error, got {other:?}"),
    }
}

#[test]
fn hold_modes_are_the_two_documented_values() {
    assert_eq!(checked_hold_mode("one_way_mode".to_owned()).unwrap(), "one_way_mode");
    assert!(checked_hold_mode("Hedge_Mode".to_owned()).is_err());
}

#[test]
fn unknown_place_result_is_settled_by_the_client_id_lookup() {
    let place_error = || ExchangeError::Api {
        exchange: "bitget".to_owned(),
        code: "40010".to_owned(),
        message: "timeout".to_owned(),
    };
    assert_eq!(
        exchange::bitget_uta_private_rest::recover_place_result(place_error(), Ok(Some(7u32))).unwrap(),
        7
    );
    match exchange::bitget_uta_private_rest::recover_place_result::<u32>(place_error(), Ok(None)) {
        Err(ExchangeError::Api { code, .. }) => assert_eq!(code, "40010"),
        other => panic!("unexpected {other:?}"),
    }
    match exchange::bitget_uta_private_rest::recover_place_result::<u32>(
        place_error(),
        Err(ExchangeError::Network("reset".to_owned())),
    ) {
        Err(ExchangeError::Network(message)) => assert_eq!(
            message,
            "bitget place result is ambiguous (bitget api error 40010: timeout); clientOid confirmation failed: network error: reset"
        ),
        other => panic!("unexpected {other:?}"),
    }
}
