use exchange::bitget_transfers::{
    canonical_network_id, deposit_destination, deposit_history_incomplete, deposit_records_from_body, deposit_history_window,
    deposit_page_step, history_cursor, deposit_address_from_body, deposit_address_path, address_book_pause_ms, deposit_history_path, withdraw_address_path, withdraw_address_page_from_body, is_evm_address, matching_status, parse_status,
    validate_status_request, withdraw_address_query, withdraw_page_step, Amount, DepositAddressRow,
    DepositRecord, DepositStatus, DepositStatusRequest, DepositStep, TransferDestinationRequest,
    TransferDestinationStatus, TransferDirection, WithdrawAddressPage, WithdrawAddressRow,
    WithdrawStep, MAX_HISTORY_PAGES,
};
use exchange::error::ExchangeError;

fn status_request() -> DepositStatusRequest {
    DepositStatusRequest {
        venue: "bitget".to_owned(),
        currency: "USDC".to_owned(),
        network: "SOL".to_owned(),
        address: "BitgetSolanaAddress".to_owned(),
        tag: None,
        transaction_id: "SolanaSignature".to_owned(),
        amount: Amount { mantissa: 125, scale: 1 },
        submitted_at_ms: 1_700_000_000_000,
    }
}

fn destination_request() -> TransferDestinationRequest {
    TransferDestinationRequest {
        currency: "USDC".to_owned(),
        network: "SOL".to_owned(),
        direction: TransferDirection::DepositToVenue,
        expected_address: None,
        expected_tag: None,
        amount: None,
    }
}

fn withdrawal_destination_request() -> TransferDestinationRequest {
    TransferDestinationRequest {
        currency: "USDC".to_owned(),
        network: "SOL".to_owned(),
        direction: TransferDirection::WithdrawToChain,
        expected_address: Some("SolanaAddress".to_owned()),
        expected_tag: None,
        amount: None,
    }
}

fn record(order_id: &str, record_id: &str) -> DepositRecord {
    DepositRecord {
        order_id: order_id.to_owned(),
        record_id: record_id.to_owned(),
        coin: "USDC".to_owned(),
        operation_type: "deposit".to_owned(),
        dest: "on_chain".to_owned(),
        size: "12.4".to_owned(),
        status: "success".to_owned(),
        to_address: "BitgetSolanaAddress".to_owned(),
        chain: "SOL".to_owned(),
        created_time: "1700000001000".to_owned(),
    }
}

fn message(error: ExchangeError) -> String {
    error.to_text()
}

/// Runs the deposit record pages through the paging decisions, as the
/// adapter's request loop does.
fn run_pages(
    pages: &dyn Fn(Option<&str>) -> Vec<DepositRecord>,
) -> Result<Option<exchange::bitget_transfers::DepositStatusEvidence>, ExchangeError> {
    let request = status_request();
    let mut history = Vec::new();
    let mut cursor: Option<String> = None;
    let mut asked = 0;
    for page_index in 0..MAX_HISTORY_PAGES {
        let rows = pages(cursor.as_deref());
        asked += 1;
        match deposit_page_step(&mut history, rows, &cursor, page_index)? {
            DepositStep::Complete => {
                assert_eq!(asked, 2);
                return matching_status(&history, &request, "official", 2);
            }
            DepositStep::Stalled => break,
            DepositStep::Next(next) => cursor = Some(next),
        }
    }
    assert_eq!(asked, 2);
    Err(deposit_history_incomplete())
}

#[test]
fn deposit_cursor_cannot_hide_duplicate_or_unfinished_history() {
    for (duplicate, stalled) in [(false, false), (true, false), (false, true)] {
        let matching = record("100", "SolanaSignature");
        let mut first = vec![matching.clone()];
        for id in 1..100 {
            first.push(record(&id.to_string(), &format!("OtherSignature{id}")));
        }
        let pages = move |cursor: Option<&str>| {
            let second = cursor == Some("1");
            if !second || stalled {
                first.clone()
            } else if duplicate {
                vec![matching.clone()]
            } else {
                vec![]
            }
        };
        let result = run_pages(&pages);
        if duplicate || stalled {
            assert!(message(result.unwrap_err()).contains(if duplicate {
                "ambiguous"
            } else {
                "incomplete"
            }));
        } else {
            assert_eq!(result.unwrap().unwrap().amount, Amount { mantissa: 124, scale: 1 });
        }
    }
}

#[test]
fn parses_exact_official_deposit_address() {
    let row = deposit_destination(
        &DepositAddressRow {
            address: "BitgetSolanaAddress".to_owned(),
            chain: "SOL".to_owned(),
            coin: "USDC".to_owned(),
            tag: None,
        },
        &destination_request(),
        "official",
        1,
    )
    .expect("deposit address");

    assert_eq!(row.status, TransferDestinationStatus::Verified);
    assert_eq!(row.address.as_deref(), Some("BitgetSolanaAddress"));
}

#[test]
fn exact_transaction_identity_maps_terminal_failure() {
    let rows = deposit_records_from_body(
        r#"{"code":"00000","msg":"success","data":[{"orderId":"9","recordId":"SolanaSignature","coin":"usdc","type":"deposit","dest":"on_chain","size":"12.5","status":"fail","fromAddress":"source","toAddress":"BitgetSolanaAddress","chain":"SOL","createdTime":"1700000001000","updatedTime":"1700000002000"}]}"#,
    )
    .expect("deposit page");
    let row = parse_status(&rows[0], &status_request(), "official", 2).expect("exact deposit row");

    assert_eq!(row.status, DepositStatus::Failed);
}

#[test]
fn withdrawal_destination_requires_an_exact_official_address_book_row() {
    let request = withdrawal_destination_request();
    let query = withdraw_address_query(&request).expect("query");
    assert_eq!(query.address_type, "regular");
    let page = withdraw_address_page_from_body(
        r#"{"code":"00000","msg":"success","data":{"addressList":[{"coin":"USDC","chain":"SOL","address":"SolanaAddress","memo":"","type":"regular","createdTime":"1700000000000"}],"cursor":""}}"#,
    )
    .expect("address book page");
    assert_eq!(page.cursor.as_deref(), Some(""));
    let result = match withdraw_page_step(&request, &query.expected_address, &page, &None, 0, "official", 5) {
        WithdrawStep::Found(evidence) => evidence,
        other => panic!("unexpected step {other:?}"),
    };

    assert_eq!(result.status, TransferDestinationStatus::Verified);
    assert_eq!(result.allowlisted, Some(true));
}

#[test]
fn withdraw_book_without_the_address_reports_it_missing() {
    let request = withdrawal_destination_request();
    let page = WithdrawAddressPage {
        address_list: vec![WithdrawAddressRow {
            coin: "USDC".to_owned(),
            chain: "SOL".to_owned(),
            address: "solanaaddress".to_owned(),
            memo: String::new(),
        }],
        cursor: None,
    };
    match withdraw_page_step(&request, "SolanaAddress", &page, &None, 0, "official", 5) {
        WithdrawStep::Missing(evidence) => {
            assert_eq!(evidence.status, TransferDestinationStatus::Missing);
            assert_eq!(evidence.allowlisted, Some(false));
            assert_eq!(evidence.address.as_deref(), Some("SolanaAddress"));
        }
        other => panic!("unexpected step {other:?}"),
    }
}

#[test]
fn full_withdraw_book_page_moves_to_its_cursor() {
    let request = withdrawal_destination_request();
    let rows: Vec<WithdrawAddressRow> = (0..10)
        .map(|i| WithdrawAddressRow {
            coin: "USDC".to_owned(),
            chain: "SOL".to_owned(),
            address: format!("Other{i}"),
            memo: String::new(),
        })
        .collect();
    let page = WithdrawAddressPage { address_list: rows.clone(), cursor: Some(" c2 ".to_owned()) };
    match withdraw_page_step(&request, "SolanaAddress", &page, &None, 0, "official", 5) {
        WithdrawStep::Next(cursor) => assert_eq!(cursor.as_deref(), Some("c2")),
        other => panic!("unexpected step {other:?}"),
    }
    match withdraw_page_step(&request, "SolanaAddress", &page, &Some("c2".to_owned()), 1, "official", 5) {
        WithdrawStep::Missing(_) => {}
        other => panic!("unexpected step {other:?}"),
    }
}

#[test]
fn withdraw_query_refuses_blank_fields_and_types_evm_addresses() {
    let mut request = withdrawal_destination_request();
    request.expected_address = Some("  ".to_owned());
    assert!(message(withdraw_address_query(&request).unwrap_err()).contains("expected withdrawal address is empty"));
    request.expected_address = Some(format!(" 0x{} ", "aB".repeat(20)));
    let query = withdraw_address_query(&request).expect("query");
    assert_eq!(query.address_type, "EVM");
    assert_eq!(query.expected_address, format!("0x{}", "aB".repeat(20)));
    request.currency = " ".to_owned();
    assert!(message(withdraw_address_query(&request).unwrap_err()).contains("bitget deposit currency is empty"));
    assert!(is_evm_address(&format!("0x{}", "0".repeat(40))));
    assert!(!is_evm_address(&format!("0x{}", "g".repeat(40))));
}

#[test]
fn deposit_requests_are_checked_before_the_window() {
    let request = status_request();
    assert_eq!(
        deposit_history_window(&request, 1_700_000_100_000).unwrap(),
        (1_699_999_700_000, 1_700_000_100_000)
    );
    assert_eq!(
        deposit_history_window(&request, 1).unwrap(),
        (1_699_999_700_000, 1_700_000_000_000)
    );
    let mut tagged = status_request();
    tagged.tag = Some("memo".to_owned());
    assert!(matches!(
        validate_status_request(&tagged),
        Err(ExchangeError::UnsupportedCapability(_))
    ));
    let mut free = status_request();
    free.amount = Amount { mantissa: 0, scale: 0 };
    assert!(message(validate_status_request(&free).unwrap_err()).contains("must be positive"));
    let mut other = status_request();
    other.venue = "binance".to_owned();
    assert!(matches!(validate_status_request(&other), Err(ExchangeError::UnsupportedSymbol(_))));
}

#[test]
fn deposit_records_without_the_transaction_prove_nothing() {
    let rows = vec![record("5", "OtherSignature")];
    assert!(matching_status(&rows, &status_request(), "official", 2).unwrap().is_none());
    let mut wrong_address = record("6", "SolanaSignature");
    wrong_address.to_address = "bitgetsolanaaddress".to_owned();
    assert!(message(matching_status(&[wrong_address], &status_request(), "official", 2).unwrap_err())
        .contains("identity does not match"));
}

#[test]
fn deposit_size_is_read_exactly_and_never_negative() {
    let mut row = record("7", "SolanaSignature");
    row.size = "-1".to_owned();
    assert!(message(parse_status(&row, &status_request(), "official", 2).unwrap_err()).contains("is negative"));
    row.size = "abc".to_owned();
    assert!(message(parse_status(&row, &status_request(), "official", 2).unwrap_err()).contains("bitget deposit size: "));
    row.size = "42.12500001".to_owned();
    let evidence = parse_status(&row, &status_request(), "official", 2).expect("evidence");
    assert_eq!(evidence.amount, Amount { mantissa: 4_212_500_001, scale: 8 });
    assert_eq!(evidence.transaction_id, "SolanaSignature");
}

#[test]
fn history_cursor_is_the_smallest_numeric_record_id() {
    let rows = vec![record("300", "a"), record(" 42 ", "b"), record("x", "c"), record("+7", "d")];
    assert_eq!(history_cursor(&rows).as_deref(), Some("7"));
    assert!(history_cursor(&[record("x", "c")]).is_none());
}

#[test]
fn network_names_compare_by_family() {
    assert_eq!(canonical_network_id(" SOL "), "solana");
    assert_eq!(canonical_network_id("ERC20"), "ethereum");
    assert_eq!(canonical_network_id("TRC20"), "trc20");
}

#[test]
fn deposit_record_pages_must_hold_every_member() {
    let missing = deposit_records_from_body(
        r#"{"code":"00000","msg":"success","data":[{"orderId":"9","recordId":"x"}]}"#,
    );
    assert!(message(missing.unwrap_err()).contains("bitget deposit records: invalid payload"));
    let refused = deposit_records_from_body(r#"{"code":"40001","msg":"denied","data":[]}"#);
    assert!(matches!(refused, Err(ExchangeError::Api { .. })));
}

#[test]
fn address_book_pages_default_their_list_and_cursor() {
    let page = withdraw_address_page_from_body(r#"{"code":"00000","msg":"success","data":{}}"#)
        .expect("empty page");
    assert!(page.address_list.is_empty());
    assert!(page.cursor.is_none());
    let empty = withdraw_address_page_from_body(r#"{"code":"00000","msg":"success","data":null}"#);
    assert!(message(empty.unwrap_err()).contains("empty data"));
    let bad = withdraw_address_page_from_body(r#"{"code":"00000","data":{"addressList":[{"coin":"USDC"}]}}"#);
    assert!(message(bad.unwrap_err()).contains("invalid payload"));
}

#[test]
fn paging_stops_when_the_page_budget_is_spent() {
    let request = withdrawal_destination_request();
    let rows: Vec<WithdrawAddressRow> = (0..10)
        .map(|i| WithdrawAddressRow {
            coin: "USDC".to_owned(),
            chain: "SOL".to_owned(),
            address: format!("Other{i}"),
            memo: String::new(),
        })
        .collect();
    let page = WithdrawAddressPage { address_list: rows, cursor: Some("c9".to_owned()) };
    match withdraw_page_step(&request, "SolanaAddress", &page, &None, 4, "official", 5) {
        WithdrawStep::Missing(_) => {}
        other => panic!("unexpected step {other:?}"),
    }
    let mut full = vec![record("100", "SolanaSignature")];
    for id in 1..100 {
        full.push(record(&id.to_string(), &format!("OtherSignature{id}")));
    }
    let mut history = Vec::new();
    assert_eq!(deposit_page_step(&mut history, full.clone(), &None, 0).unwrap(), DepositStep::Next("1".to_owned()));
    assert_eq!(deposit_page_step(&mut history, full, &None, 4).unwrap(), DepositStep::Stalled);
    assert_eq!(address_book_pause_ms(0), 0);
    assert_eq!(address_book_pause_ms(1), 1050);
}

#[test]
fn request_paths_carry_the_query_in_order() {
    let request = withdrawal_destination_request();
    let query = withdraw_address_query(&request).expect("query");
    assert_eq!(
        withdraw_address_path(&request, &query, &None),
        "/api/v3/account/withdraw-address?coin=USDC&type=regular&limit=10"
    );
    assert_eq!(
        withdraw_address_path(&request, &query, &Some("a b".to_owned())),
        "/api/v3/account/withdraw-address?coin=USDC&type=regular&limit=10&cursor=a+b"
    );
    assert_eq!(
        deposit_history_path(&status_request(), 1, 2, &Some("7".to_owned())),
        "/api/v3/account/deposit-records?coin=USDC&startTime=1&endTime=2&limit=100&cursor=7"
    );
}

#[test]
fn deposit_address_is_read_and_asked_for_by_coin_and_chain() {
    let row = deposit_address_from_body(
        r#"{"code":"00000","msg":"success","data":{"address":"BitgetSolanaAddress","chain":"SOL","coin":"USDC","tag":null,"url":""}}"#,
    )
    .expect("deposit address row");
    assert_eq!(row.address, "BitgetSolanaAddress");
    assert!(row.tag.is_none());
    let evidence = deposit_destination(&row, &destination_request(), "official", 1).expect("evidence");
    assert_eq!(evidence.status, TransferDestinationStatus::Verified);
    assert_eq!(
        deposit_address_path(&destination_request()).unwrap(),
        "/api/v3/account/deposit-address?coin=USDC&chain=SOL"
    );
    let mut blank = destination_request();
    blank.network = " ".to_owned();
    assert!(message(deposit_address_path(&blank).unwrap_err()).contains("bitget deposit network is empty"));
}
