use exchange::bitget_uta_ws_user::parse_user_control;
use exchange::bitget_uta_ws_user_data::{parse_user_event, BitgetUserEvent};
use exchange::orders::{LiveOrderState, OrderSide, OrderStatus, OrderType};

fn number(text: &str) -> f64 {
    text.parse::<f64>().expect("decimal text")
}

fn error_text(text: &str) -> String {
    parse_user_event(text).expect_err("frame refused").to_text()
}

const ACCOUNT: &str = r#"{
    "arg":{"instType":"UTA","topic":"account"},
    "action":"snapshot",
    "data":[{
        "totalEquity":"1000.5","effEquity":"990","mmr":"1.5","imr":"10",
        "mgnRatio":"0.01","positionMgnRatio":"0.02","unrealisedPnL":"-3.25",
        "coin":[
            {"coin":"USDT","locked":"1","available":"900","equity":"950","usdValue":"950"},
            {"coin":"BTC","frozen":"0","available":"0.01","equity":"0.01","usdtEquity":"600"}
        ]
    }],
    "ts":1700000000000
}"#;

const ORDER: &str = r#"{
    "arg":{"instType":"UTA","topic":"order"},
    "action":"snapshot",
    "data":[{
        "category":"usdt-futures","orderId":"111","clientOid":" cid-1 ","reduceOnly":"no",
        "holdMode":"hedge_mode","holdSide":"long","tradeSide":"open","symbol":"BTCUSDT",
        "side":"buy","orderType":"limit","timeInForce":"post_only","orderStatus":"filled",
        "qty":"0.01","price":"30000","accFillSize":"0.01","avgPrice":"29999.5",
        "feeDetail":[{"feeCoin":"USDT","fee":"-0.12"},{"feeCoin":"","fee":"-0.01"}],
        "cTime":"1700000000000","updatedTime":"1700000000500","cancelReason":"","totalProfit":"0"
    }]
}"#;

const POSITION: &str = r#"{
    "arg":{"instType":"UTA","topic":"position"},
    "action":"snapshot",
    "data":[{
        "symbol":"ETHUSDT","marginCoin":"USDT","marginSize":"100","marginMode":"crossed",
        "holdMode":"one_way_mode","positionStatus":"opening","posSide":"short","size":"2",
        "available":"2","frozen":"0","avgPrice":"2000","leverage":"10","unrealisedPnl":"5",
        "liqPrice":"0","mmr":"","markPrice":"1997.5","updatedTime":"1700000000001"
    }]
}"#;

const FILL: &str = r#"{
    "arg":{"instType":"UTA","topic":"fill"},
    "data":[{
        "category":"SPOT","orderId":"9","clientOid":"c9","execId":"e9","symbol":"ETHUSDC",
        "side":"Sell","holdSide":"","tradeSide":"","execPrice":"2001","execQty":"0.5",
        "execValue":"1000.5","execPnl":"0","feeDetail":[{"feeCoin":" USDC ","fee":"0.2"}],
        "execTime":"1700000000002","updatedTime":"1700000000003","isRPI":"YES"
    }]
}"#;

#[test]
fn heartbeat_pong_is_ignored_by_control_and_event_parsers() {
    assert!(parse_user_control("pong").expect("heartbeat control").is_none());
    assert!(parse_user_event("pong").expect("heartbeat event").is_none());
}

#[test]
fn empty_position_snapshot_is_preserved_as_valid_account_evidence() {
    let fixture = r#"{
        "arg":{"instType":"UTA","topic":"position"},
        "action":"snapshot",
        "data":[],
        "ts":1785335184756
    }"#;
    let Some(BitgetUserEvent::Position(update)) =
        parse_user_event(fixture).expect("empty position snapshot")
    else {
        panic!("expected empty position snapshot");
    };

    assert_eq!(update.action, "snapshot");
    assert!(update.positions.is_empty());
}

#[test]
fn acknowledgements_and_unknown_topics_carry_no_event() {
    let ack = r#"{"arg":{"instType":"UTA","topic":"order"},"action":"snapshot","data":[]}"#;
    assert!(parse_user_event(ack).expect("ack").is_none());
    let update = r#"{"arg":{"instType":"UTA","topic":"position"},"action":"update","data":[]}"#;
    assert!(parse_user_event(update).expect("empty update").is_none());
    let other = r#"{"arg":{"topic":"greeks"},"data":[{"x":1}]}"#;
    assert!(parse_user_event(other).expect("unknown topic").is_none());
}

#[test]
fn account_frame_keeps_aggregate_equity_and_nested_assets() {
    let Some(BitgetUserEvent::Account(update)) = parse_user_event(ACCOUNT).expect("account")
    else {
        panic!("expected account");
    };
    assert_eq!(update.action, "snapshot");
    assert_eq!(number(&update.total_equity), 1000.5);
    assert_eq!(number(&update.effective_equity), 990.0);
    assert_eq!(number(&update.initial_margin), 10.0);
    assert_eq!(number(&update.maintenance_margin), 1.5);
    assert_eq!(number(&update.unrealized_pnl), -3.25);
    assert_eq!(update.accounts.len(), 2);
    assert_eq!(update.accounts[0].coin, "USDT");
    assert_eq!(number(&update.accounts[0].frozen), 1.0);
    assert_eq!(number(&update.accounts[0].unrealized_pnl), -3.25);
    assert_eq!(update.accounts[1].coin, "BTC");
    assert_eq!(number(&update.accounts[1].usdt_equity), 600.0);
    assert_eq!(number(&update.accounts[1].unrealized_pnl), 0.0);
}

#[test]
fn account_frame_needs_exactly_one_aggregate_row() {
    let two = ACCOUNT.replace("}],\n    \"ts\"", "},{}],\n    \"ts\"");
    assert_eq!(
        error_text(&two),
        "parse error: bitget uta user ws account expected one aggregate row, got 2"
    );
    let missing = ACCOUNT.replace("\"totalEquity\":\"1000.5\",", "");
    assert_eq!(
        error_text(&missing),
        "parse error: bitget uta user ws missing numeric field account.totalEquity"
    );
}

#[test]
fn order_frame_maps_terminal_post_only_fill_with_fees() {
    let Some(BitgetUserEvent::Order(rows)) = parse_user_event(ORDER).expect("order") else {
        panic!("expected order");
    };
    assert_eq!(rows.len(), 1);
    let row = &rows[0];
    assert_eq!(row.client_order_id, " cid-1 ");
    assert_eq!(row.live_state, LiveOrderState::Filled);
    assert_eq!(row.category, "USDT-FUTURES");
    assert_eq!(row.hold_mode, "hedge_mode");
    assert_eq!(row.hold_side, "long");
    assert_eq!(row.trade_side, "open");
    assert_eq!(row.updated_time_ms, 1_700_000_000_500);
    assert_eq!(row.cancel_reason, None);
    let order = &row.order;
    assert_eq!(order.order_id, "111");
    assert_eq!(order.symbol, "BTC");
    assert_eq!(order.exchange, "bitget");
    assert_eq!(order.side, OrderSide::Buy);
    assert_eq!(order.order_type, OrderType::PostOnly);
    assert_eq!(order.status, OrderStatus::Filled);
    assert_eq!(order.client_order_id.as_deref(), Some("cid-1"));
    assert_eq!(order.reduce_only, Some(false));
    assert_eq!(number(&order.quantity), 0.01);
    assert_eq!(number(&order.filled_price), 29999.5);
    let fee: f64 = order.fees.iter().map(|f| number(f)).sum();
    assert!((fee + 0.13).abs() < 1e-12);
    assert_eq!(order.created_at_ms, 1_700_000_000_000);
    assert_eq!(order.venue_time_in_force.as_deref(), Some("post_only"));
}

#[test]
fn order_frame_fails_closed_on_unknown_or_missing_fields() {
    let unknown_status = ORDER.replace("\"filled\"", "\"triggered\"");
    assert_eq!(
        error_text(&unknown_status),
        "parse error: bitget uta user ws order status invalid: triggered"
    );
    let bad_hold = ORDER.replace("\"hedge_mode\"", "\"both\"");
    assert_eq!(
        error_text(&bad_hold),
        "parse error: bitget uta user ws unknown holdMode: both"
    );
    let no_category = ORDER.replace("\"usdt-futures\"", "\" \"");
    assert_eq!(
        error_text(&no_category),
        "parse error: bitget uta user ws missing field order.category"
    );
    let bad_time = ORDER.replace("\"1700000000000\"", "\"17e11\"");
    assert_eq!(
        error_text(&bad_time),
        "parse error: bitget uta user ws integer field order.createdTime: invalid digit found in string; value=17e11"
    );
    let zero_qty = ORDER.replace("\"qty\":\"0.01\"", "\"qty\":\"0\"");
    assert_eq!(
        error_text(&zero_qty),
        "parse error: bitget uta user ws non-positive field order.qty: value=0"
    );
    let bad_fee = ORDER.replace("\"-0.01\"", "\"abc\"");
    assert_eq!(
        error_text(&bad_fee),
        "parse error: bitget uta user ws numeric field order.feeDetail.fee: invalid float literal; value=abc"
    );
    let bad_reduce = ORDER.replace("\"reduceOnly\":\"no\"", "\"reduceOnly\":\"maybe\"");
    assert_eq!(
        error_text(&bad_reduce),
        "parse error: bitget order.reduceOnly invalid: maybe"
    );
    let not_rows = ORDER.replace("\"orderId\":\"111\"", "\"orderId\":111");
    assert_eq!(
        error_text(&not_rows),
        "parse error: bitget uta user ws order rows: invalid payload"
    );
}

#[test]
fn spot_orders_may_leave_position_fields_blank() {
    let spot = ORDER
        .replace("\"usdt-futures\"", "\"spot\"")
        .replace("\"hedge_mode\"", "\"\"")
        .replace("\"long\"", "\"\"")
        .replace("\"open\"", "\"\"")
        .replace("\"reduceOnly\":\"no\"", "\"reduceOnly\":\"\"");
    let Some(BitgetUserEvent::Order(rows)) = parse_user_event(&spot).expect("spot order") else {
        panic!("expected order");
    };
    assert_eq!(rows[0].category, "SPOT");
    assert_eq!(rows[0].hold_mode, "");
    assert_eq!(rows[0].order.reduce_only, None);
}

#[test]
fn position_frame_uses_v3_names_and_drops_zero_liquidation_price() {
    let Some(BitgetUserEvent::Position(update)) = parse_user_event(POSITION).expect("position")
    else {
        panic!("expected position");
    };
    assert_eq!(update.positions.len(), 1);
    let p = &update.positions[0];
    assert_eq!(p.symbol, "ETH");
    assert_eq!(p.margin_coin, "USDT");
    assert_eq!(p.margin_mode, "crossed");
    assert_eq!(p.position_status, "opening");
    assert_eq!(p.side, "short");
    assert_eq!(number(&p.size), 2.0);
    assert_eq!(number(&p.entry_price), 2000.0);
    assert_eq!(number(&p.leverage), 10.0);
    assert_eq!(p.liquidation_price, None);
    assert_eq!(number(&p.maintenance_margin_rate), 0.0);
    assert_eq!(number(&p.mark_price), 1997.5);
    assert_eq!(p.updated_time_ms, 1_700_000_000_001);

    for status in ["ended", "normal", "liquidation", "adl"] {
        let other = POSITION.replace("\"opening\"", &format!("\"{status}\""));
        assert!(parse_user_event(&other).is_ok());
    }
    let unknown = POSITION.replace("\"opening\"", "\"closing\"");
    assert_eq!(
        error_text(&unknown),
        "parse error: bitget uta user ws unknown positionStatus: closing"
    );
    let legacy = POSITION.replace("\"posSide\"", "\"holdSide\"");
    assert!(parse_user_event(&legacy).is_ok());
}

#[test]
fn fill_frame_reads_rpi_flag_and_first_fee_coin() {
    let Some(BitgetUserEvent::Fill(rows)) = parse_user_event(FILL).expect("fill") else {
        panic!("expected fill");
    };
    let f = &rows[0];
    assert_eq!(f.order_id, "9");
    assert_eq!(f.exec_id, "e9");
    assert_eq!(f.category, "SPOT");
    assert_eq!(f.symbol, "ETH");
    assert_eq!(f.side, "sell");
    assert_eq!(f.hold_side, "");
    assert_eq!(number(&f.price), 2001.0);
    assert_eq!(f.fees.len(), 1);
    assert_eq!(f.fee_currency.as_deref(), Some("USDC"));
    assert_eq!(f.trade_time_ms, 1_700_000_000_002);
    assert_eq!(f.is_rpi, Some(true));

    for (raw, expected) in [("\"no\"", Some(false)), ("true", Some(true)), ("null", None)] {
        let other = FILL.replace("\"YES\"", raw);
        let Some(BitgetUserEvent::Fill(rows)) = parse_user_event(&other).expect("flag") else {
            panic!("expected fill");
        };
        assert_eq!(rows[0].is_rpi, expected);
    }
    let bad = FILL.replace("\"YES\"", "\"maybe\"");
    assert_eq!(
        error_text(&bad),
        "parse error: bitget uta user ws boolean field fill.isRPI: value=\"maybe\""
    );
    let number_flag = FILL.replace("\"YES\"", "1");
    assert_eq!(
        error_text(&number_flag),
        "parse error: bitget uta user ws boolean field fill.isRPI: value=1"
    );
}

#[test]
fn malformed_frames_are_refused_with_their_text() {
    assert_eq!(
        error_text("not json"),
        "parse error: bitget uta user ws event: invalid payload; body=not json"
    );
    assert_eq!(
        error_text(r#"{"data":[]}"#),
        "parse error: bitget uta user ws event: invalid payload; body={\"data\":[]}"
    );
    let v2 = r#"{"arg":{"channel":"fill"},"data":[]}"#;
    assert!(parse_user_event(v2).expect("v2 channel").is_none());
}
