use exchange::bitget_transfers::Amount;
use exchange::bitget_withdrawals::{
    account_assets_from_body, withdrawal_ack_from_body, withdrawal_history_path,
    withdrawal_records_from_body,
    source_balance, validate_source_balance, AccountAssetRow, WithdrawalSourceBalanceRequest,
    validate_status, validate_submit, withdraw_body, withdrawal_history_window, withdrawal_records_status,
    withdrawal_status, withdrawal_submission, WithdrawHistoryRow, WithdrawalStatus,
    WithdrawalStatusRequest, WithdrawalSubmitRequest, WithdrawalWalletType,
};
use exchange::error::ExchangeError;

fn submit_request() -> WithdrawalSubmitRequest {
    WithdrawalSubmitRequest {
        venue: "bitget".to_owned(),
        currency: "USDC".to_owned(),
        network: "SOL".to_owned(),
        address: "SolanaAddress".to_owned(),
        tag: None,
        amount: Amount { mantissa: 125, scale: 1 },
        client_withdrawal_id: "crossline-1".to_owned(),
        wallet_type: WithdrawalWalletType::Spot,
        max_fee: None,
    }
}

fn status_request() -> WithdrawalStatusRequest {
    WithdrawalStatusRequest {
        venue: "bitget".to_owned(),
        currency: "USDC".to_owned(),
        network: "SOL".to_owned(),
        address: "SolanaAddress".to_owned(),
        client_withdrawal_id: "crossline-1".to_owned(),
        tag: None,
        provider_withdrawal_id: None,
        submitted_at_ms: 1_700_000_000_000,
    }
}

fn history_row() -> WithdrawHistoryRow {
    WithdrawHistoryRow {
        order_id: "provider-1".to_owned(),
        client_oid: "crossline-1".to_owned(),
        record_id: "tx-1".to_owned(),
        coin: "USDC".to_owned(),
        operation_type: "withdraw".to_owned(),
        dest: "on_chain".to_owned(),
        size: "12.5".to_owned(),
        status: "success".to_owned(),
        to_address: "SolanaAddress".to_owned(),
        chain: "SOL".to_owned(),
        fee: "0.1".to_owned(),
        confirm: "3".to_owned(),
    }
}

#[test]
fn history_maps_success_and_requires_exact_scope() {
    let request = status_request();
    let result = withdrawal_records_status(&[history_row()], &request, "official", 9)
        .expect("withdrawal history")
        .expect("matching row");

    assert_eq!(result.status, WithdrawalStatus::Completed);
    assert_eq!(result.transaction_id.as_deref(), Some("tx-1"));
    assert_eq!(result.confirmations, Some(3));
    assert_eq!(result.amount, Amount { mantissa: 125, scale: 1 });
    assert_eq!(result.transaction_fee, Amount { mantissa: 1, scale: 1 });
}

#[test]
fn withdrawal_record_for_another_address_is_refused() {
    let mut row = history_row();
    row.to_address = "solanaaddress".to_owned();
    let error = withdrawal_status(&row, &status_request(), "official", 9).unwrap_err();
    assert!(error.to_text().contains("identity does not match"));
    let other = WithdrawHistoryRow { client_oid: "other".to_owned(), ..history_row() };
    assert!(withdrawal_records_status(&[other], &status_request(), "official", 9).unwrap().is_none());
}

#[test]
fn submission_uses_uta_single_attempt_and_client_oid() {
    let request = submit_request();
    validate_submit(&request).expect("valid request");
    let result = withdrawal_submission(&request, "provider-1", "crossline-1", 7, "official")
        .expect("withdrawal submission");
    assert_eq!(result.provider_withdrawal_id, "provider-1");
    let echo = withdrawal_submission(&request, "provider-1", "crossline-2", 7, "official").unwrap_err();
    assert!(echo.to_text().contains("different clientOid"));
}

#[test]
fn withdrawal_requests_are_checked_before_they_are_sent() {
    let mut funding = submit_request();
    funding.wallet_type = WithdrawalWalletType::Funding;
    assert!(matches!(validate_submit(&funding), Err(ExchangeError::UnsupportedCapability(_))));
    let mut free = submit_request();
    free.amount = Amount { mantissa: -1, scale: 0 };
    assert!(validate_submit(&free).unwrap_err().to_text().contains("must be positive"));
    let mut unnamed = status_request();
    unnamed.client_withdrawal_id = " ".to_owned();
    assert!(validate_status(&unnamed).unwrap_err().to_text().contains("bitget withdrawal clientOid is empty"));
    assert_eq!(
        withdrawal_history_window(&status_request(), 1_700_000_000_500).unwrap(),
        (1_699_999_700_000, 1_700_000_000_500)
    );
}

#[test]
fn withdrawal_body_is_the_official_shape() {
    assert_eq!(
        withdraw_body(&submit_request()).expect("body"),
        r#"{"coin":"USDC","chain":"SOL","transferType":"on_chain","address":"SolanaAddress","size":"12.5","clientOid":"crossline-1","accountType":"uta"}"#
    );
    let mut tagged = submit_request();
    tagged.tag = Some(" memo-1 ".to_owned());
    tagged.amount = Amount { mantissa: 1250, scale: 2 };
    assert_eq!(
        withdraw_body(&tagged).expect("body"),
        r#"{"coin":"USDC","chain":"SOL","transferType":"on_chain","address":"SolanaAddress","tag":"memo-1","size":"12.5","clientOid":"crossline-1","accountType":"uta"}"#
    );
}

#[test]
fn source_balance_preserves_exact_uta_decimal() {
    let request = WithdrawalSourceBalanceRequest {
        venue: "bitget".to_owned(),
        currency: "USDC".to_owned(),
        wallet_type: WithdrawalWalletType::Spot,
    };
    validate_source_balance(&request).expect("valid question");
    let rows = vec![AccountAssetRow { coin: "USDC".to_owned(), available: "42.12500001".to_owned() }];
    let result = source_balance(&request, &rows, "official", 3).expect("source balance");
    assert_eq!(result.available, Amount { mantissa: 4_212_500_001, scale: 8 });
    let missing = source_balance(&request, &[], "official", 3).unwrap_err();
    assert!(missing.to_text().contains("bitget account assets has no USDC row"));
    let funding = WithdrawalSourceBalanceRequest { wallet_type: WithdrawalWalletType::Funding, ..request };
    assert!(matches!(validate_source_balance(&funding), Err(ExchangeError::UnsupportedCapability(_))));
}

#[test]
fn withdrawal_records_and_ack_are_read_from_the_official_shapes() {
    let rows = withdrawal_records_from_body(
        r#"{"code":"00000","msg":"success","data":[{"orderId":"provider-1","clientOid":"crossline-1","recordId":"tx-1","coin":"USDC","type":"withdraw","dest":"on_chain","size":"12.5","status":"success","toAddress":"SolanaAddress","chain":"SOL","fee":"0.1","confirm":"3"}]}"#,
    )
    .expect("records");
    assert_eq!(rows.len(), 1);
    assert_eq!(rows[0].record_id, "tx-1");
    assert_eq!(rows[0].confirm, "3");
    let missing = withdrawal_records_from_body(r#"{"code":"00000","data":[{"orderId":"x"}]}"#);
    assert!(missing.unwrap_err().to_text().contains("bitget withdrawal records: invalid payload"));
    let (order_id, client_oid) = withdrawal_ack_from_body(
        r#"{"code":"00000","msg":"success","data":{"orderId":"provider-1","clientOid":"crossline-1"}}"#,
    )
    .expect("ack");
    assert_eq!(order_id, "provider-1");
    assert_eq!(client_oid, "crossline-1");
    let refused = withdrawal_ack_from_body(r#"{"code":"40001","msg":"denied","data":null}"#);
    assert!(matches!(refused, Err(ExchangeError::Api { .. })));
}

#[test]
fn account_assets_and_history_path_follow_the_official_contract() {
    let rows = account_assets_from_body(
        r#"{"code":"00000","msg":"success","data":{"assets":[{"coin":"USDC","available":"42.12500001"}]}}"#,
    )
    .expect("assets");
    assert_eq!(rows[0].coin, "USDC");
    assert_eq!(rows[0].available, "42.12500001");
    let no_list = account_assets_from_body(r#"{"code":"00000","msg":"success","data":{}}"#);
    assert!(no_list.unwrap_err().to_text().contains("invalid payload"));
    assert_eq!(
        withdrawal_history_path(&status_request(), 1_699_999_700_000, 1_700_000_000_500),
        "/api/v3/account/withdrawal-records?coin=USDC&clientOid=crossline-1&startTime=1699999700000&endTime=1700000000500&limit=100"
    );
}
