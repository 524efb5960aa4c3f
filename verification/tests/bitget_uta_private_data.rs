use exchange::bitget_response::parse_object_envelope;
use exchange::bitget_uta_private_data::{
    decode_account_assets, decode_order, decode_order_list, decode_position, order_context,
    parse_account_balances, parse_account_summary, parse_open_order, parse_open_orders,
    parse_positions, BalanceInfo, UtaAccountAssetItem, UtaAccountAssetsPayload, UtaFeeDetail,
    UtaOrderRow, UtaPositionRow,
};
use exchange::json::parse_json;
use exchange::orders::{OrderSide, OrderStatus, OrderType};

fn number(text: &str) -> f64 {
    text.parse::<f64>().expect("decimal text")
}

fn balance<'a>(rows: &'a [BalanceInfo], currency: &str) -> &'a BalanceInfo {
    rows.iter()
        .find(|row| row.currency == currency)
        .expect("currency present")
}

fn payload(unrealized: &str, assets: Vec<UtaAccountAssetItem>) -> UtaAccountAssetsPayload {
    UtaAccountAssetsPayload {
        account_equity: "0".into(),
        effective_equity: "0".into(),
        imr: "0".into(),
        mmr: "0".into(),
        margin_ratio: "0".into(),
        position_margin_ratio: "0".into(),
        usdt_unrealized_pl: unrealized.into(),
        assets,
    }
}

fn asset(coin: &str, available: &str, locked: &str, equity: &str) -> UtaAccountAssetItem {
    UtaAccountAssetItem {
        coin: coin.into(),
        available: available.into(),
        locked: locked.into(),
        equity: equity.into(),
    }
}

#[test]
fn parse_balances_picks_unified_total_for_usdt() {
    let payload = payload(
        "1.5",
        vec![asset("USDT", "100", "5", "105"), asset("BTC", "0.5", "0.1", "0.6")],
    );
    let parsed = parse_account_balances(&payload, None).expect("parse balances");
    assert_eq!(parsed.len(), 2);
    assert!((number(&balance(&parsed, "USDT").total) - 105.0).abs() < 1e-9);
    assert!((number(&balance(&parsed, "USDT").available) - 100.0).abs() < 1e-9);
    assert!((number(&balance(&parsed, "USDT").frozen) - 5.0).abs() < 1e-9);
    assert!((number(&balance(&parsed, "USDT").unrealized_pnl) - 1.5).abs() < 1e-9);
    assert!((number(&balance(&parsed, "BTC").total) - 0.6).abs() < 1e-9);
}

#[test]
fn parse_balances_filters_currency_case_insensitive() {
    let payload = payload("0", vec![asset("USDT", "1", "0", "1"), asset("btc", "2", "0", "2")]);
    let parsed = parse_account_balances(&payload, Some("BTC")).expect("parse filtered balances");
    assert_eq!(parsed.len(), 1);
    assert!(parsed.iter().any(|row| row.currency == "btc"));
}

#[test]
fn parse_balances_preserves_negative_account_unrealized_pnl() {
    let payload = payload("-3.5", vec![asset("USDT", "10", "0", "10")]);
    let parsed = parse_account_balances(&payload, None).expect("parse balances");
    assert!((number(&balance(&parsed, "USDT").unrealized_pnl) + 3.5).abs() < 1e-9);
}

#[test]
fn parse_balances_rejects_missing_total() {
    let payload = payload("0", vec![asset("ETH", "1.0", "0", "")]);
    let error = parse_account_balances(&payload, None).expect_err("missing total must fail");
    assert!(error.to_text().contains("equity"));
}

#[test]
fn parse_balances_rejects_invalid_available() {
    let payload = payload("0", vec![asset("USDT", "bad", "0", "1")]);
    let error = parse_account_balances(&payload, None).expect_err("invalid available must fail");
    assert!(error.to_text().contains("available"));
    assert!(error.to_text().contains("bad"));
}

#[test]
fn later_rows_of_a_currency_replace_earlier_ones() {
    let payload = payload("2", vec![asset("USDT", "1", "0", "1"), asset("USDT", "3", "0", "3")]);
    let parsed = parse_account_balances(&payload, None).expect("parse balances");
    assert_eq!(parsed.len(), 1);
    assert_eq!(parsed[0].total, "3");
    assert_eq!(parsed[0].unrealized_pnl, "2");
    let other = payload_with_btc();
    let parsed = parse_account_balances(&other, None).expect("parse balances");
    assert_eq!(balance(&parsed, "BTC").unrealized_pnl, "0");
}

fn payload_with_btc() -> UtaAccountAssetsPayload {
    payload("2", vec![asset(" BTC ", "1", "0", "1")])
}

#[test]
fn account_summary_reads_every_figure() {
    let mut payload = payload("0", Vec::new());
    payload.account_equity = " 1250.5 ".into();
    payload.effective_equity = "1100.25".into();
    payload.imr = "100".into();
    payload.mmr = "25".into();
    payload.margin_ratio = "0.08".into();
    payload.position_margin_ratio = "0.02".into();
    let summary = parse_account_summary(&payload, 42).expect("summary");
    assert_eq!(summary.total_equity_usd, "1250.5");
    assert_eq!(summary.total_available_balance_usd, "1100.25");
    assert_eq!(summary.account_mm_rate, "0.02");
    assert_eq!(summary.account_type, "uta");
    assert_eq!(summary.observed_at_ms, 42);
    assert_eq!(summary.freshness_ms, Some(0));
    payload.mmr = "inf".into();
    assert!(parse_account_summary(&payload, 42)
        .expect_err("infinite figure")
        .to_text()
        .contains("field mmr invalid: inf"));
}

fn position(symbol: &str, hold_side: &str, qty: &str, pos_mode: &str) -> UtaPositionRow {
    UtaPositionRow {
        symbol: symbol.into(),
        hold_side: hold_side.into(),
        hold_mode: pos_mode.into(),
        qty: qty.into(),
        avg_price: "30000".into(),
        mark_price: "31000".into(),
        unrealized_pl: "10".into(),
        leverage: "2".into(),
        liquidation_price: "15000".into(),
        margin_size: "100".into(),
        maintenance_margin_rate: "0.004".into(),
    }
}

#[test]
fn parse_positions_skips_zero_qty_and_flags_hedge_mode() {
    let rows = vec![
        position("BTCUSDT", "long", "1", "hedge_mode"),
        position("BTCUSDT", "short", "2", "hedge_mode"),
        position("ETHUSDT", "long", "0", "one_way_mode"),
    ];
    let (parsed, hedge) = parse_positions(&rows, None).expect("parse positions");
    assert_eq!(parsed.len(), 2);
    assert!(hedge);
    assert_eq!(parsed[0].symbol, "BTC");
    assert_eq!(parsed[1].side, "short");
    let (one_way, hedge) = parse_positions(&rows[2..], None).expect("parse positions");
    assert!(one_way.is_empty());
    assert!(!hedge);
}

#[test]
fn parse_positions_accepts_official_v3_total() {
    let raw = r#"{
        "symbol": "BTCUSDT",
        "posSide": "long",
        "holdMode": "one_way_mode",
        "total": "1.5",
        "avgPrice": "30000",
        "markPrice": "31000",
        "unrealisedPnl": "10",
        "leverage": "5",
        "liquidationPrice": "20000",
        "positionBalance": "100",
        "mmr": "0.004"
    }"#;
    let row = decode_position(&parse_json(raw).expect("json")).expect("parse position");
    let (parsed, _) = parse_positions(&[row], None).expect("parse position alias");
    assert_eq!(parsed.len(), 1);
    assert!((number(&parsed[0].quantity) - 1.5).abs() < 1e-9);
    assert!((number(&parsed[0].leverage) - 5.0).abs() < 1e-9);
    assert!((number(&parsed[0].maintenance_margin_ratio) - 0.004).abs() < 1e-9);
}

#[test]
fn parse_positions_rejects_invalid_mark_price() {
    let mut row = position("BTCUSDT", "long", "1", "one_way_mode");
    row.mark_price = "bad".into();
    let error = parse_positions(&[row], None).expect_err("invalid mark must fail");
    assert!(error.to_text().contains("markPrice"));
    assert!(error.to_text().contains("bad"));
}

#[test]
fn parse_positions_rejects_unknown_side_or_missing_margin() {
    let side = position("BTCUSDT", "both", "1", "one_way_mode");
    let mut margin = position("BTCUSDT", "long", "1", "one_way_mode");
    margin.margin_size.clear();

    assert!(parse_positions(&[side], None)
        .expect_err("unknown position side must fail")
        .to_text()
        .contains("posSide"));
    assert!(parse_positions(&[margin], None)
        .expect_err("missing margin must fail")
        .to_text()
        .contains("positionBalance"));
}

#[test]
fn parse_positions_maps_official_mmr() {
    let (parsed, _) = parse_positions(&[position("BTCUSDT", "long", "1", "one_way_mode")], None)
        .expect("parse position");
    assert_eq!(parsed.len(), 1);
    assert!((number(&parsed[0].maintenance_margin_ratio) - 0.004).abs() < 1e-9);
}

#[test]
fn parse_positions_rejects_missing_mmr() {
    let mut row = position("BTCUSDT", "long", "1", "one_way_mode");
    row.maintenance_margin_rate.clear();
    let error = parse_positions(&[row], None).expect_err("missing mmr must fail");
    assert!(error.to_text().contains("mmr"));
}

#[test]
fn parse_positions_rejects_negative_mmr() {
    let mut row = position("BTCUSDT", "long", "1", "one_way_mode");
    row.maintenance_margin_rate = "-0.01".into();
    let error = parse_positions(&[row], None).expect_err("negative mmr must fail");
    assert!(error.to_text().contains("mmr"));
}

#[test]
fn positions_filter_by_exact_symbol_and_check_hold_mode() {
    let rows = vec![
        position("BTCUSDT", "long", "1", "legacy"),
        position("ETHUSDT", "long", "1", "one_way_mode"),
    ];
    let (parsed, _) = parse_positions(&rows, Some("ETHUSDT")).expect("filtered");
    assert_eq!(parsed.len(), 1);
    assert_eq!(parsed[0].symbol, "ETH");
    assert!(parse_positions(&rows, None)
        .expect_err("unknown hold mode")
        .to_text()
        .contains("holdMode"));
    let mut row = position("BTCUSDT", "long", "1", "one_way_mode");
    row.liquidation_price = "0".into();
    row.leverage = "0".into();
    assert!(parse_positions(&[row], None)
        .expect_err("leverage must be positive")
        .to_text()
        .contains("leverage"));
    let mut row = position("BTCUSDT", "long", "1", "one_way_mode");
    row.liquidation_price = "0".into();
    let (parsed, _) = parse_positions(&[row], None).expect("zero liquidation price");
    assert_eq!(parsed[0].liquidation_price, None);
}

fn open_order(force: &str, order_type: &str, side: &str, status: &str) -> UtaOrderRow {
    UtaOrderRow {
        symbol: "BTCUSDT".into(),
        order_id: "123".into(),
        order_status: status.into(),
        order_type: order_type.into(),
        time_in_force: force.into(),
        side: side.into(),
        price: "30000".into(),
        qty: "1".into(),
        cum_exec_qty: "0".into(),
        avg_price: "0".into(),
        created_time: "1700000000000".into(),
        client_oid: String::new(),
        reduce_only: "NO".into(),
        fee_detail: Vec::new(),
        exec_type: String::new(),
        cancel_reason: String::new(),
    }
}

#[test]
fn parse_open_order_uses_time_in_force_for_post_only_and_status() {
    let order =
        parse_open_order(open_order("post_only", "limit", "sell", "live")).expect("parse order");
    assert_eq!(order.symbol, "BTC");
    assert!(matches!(order.side, OrderSide::Sell));
    assert!(matches!(order.order_type, OrderType::PostOnly));
    assert!(matches!(order.status, OrderStatus::Open));
}

#[test]
fn parse_open_order_accepts_official_cancelled_status() {
    let order = parse_open_order(open_order("gtc", "limit", "sell", "cancelled"))
        .expect("parse official cancelled order");
    assert!(matches!(order.status, OrderStatus::Canceled));
}

#[test]
fn parse_open_order_surfaces_client_order_id_and_reduce_only() {
    let mut row = open_order("gtc", "limit", "buy", "live");
    row.client_oid = "bitget-cli-1".into();
    row.reduce_only = "YES".into();
    let order = parse_open_order(row).expect("parse order");
    assert_eq!(order.client_order_id.as_deref(), Some("bitget-cli-1"));
    assert_eq!(order.reduce_only, Some(true));
}

#[test]
fn parse_open_order_maps_reduce_only_no_and_rejects_blank() {
    let mut row = open_order("gtc", "limit", "buy", "live");
    row.reduce_only = "NO".into();
    assert_eq!(
        parse_open_order(row).expect("parse").reduce_only,
        Some(false)
    );

    let mut blank = open_order("gtc", "limit", "buy", "live");
    blank.reduce_only.clear();
    let error = parse_open_order(blank).expect_err("missing reduceOnly must fail");
    assert!(error.to_text().contains("reduceOnly"));
}

#[test]
fn parse_open_order_rejects_unknown_reduce_only() {
    let mut row = open_order("gtc", "limit", "buy", "live");
    row.reduce_only = "maybe".into();
    let error = parse_open_order(row).expect_err("unknown reduceOnly must fail");
    assert!(error.to_text().contains("reduceOnly"));
}

#[test]
fn parse_open_order_rejects_legacy_size_and_force_aliases() {
    let raw = r#"{
        "symbol": "BTCUSDT",
        "orderId": "1",
        "clientOid": "c",
        "status": "live",
        "orderType": "limit",
        "force": "gtc",
        "side": "buy",
        "price": "30000",
        "size": "0.5",
        "baseVolume": "0",
        "priceAvg": "0",
        "cTime": "1700000000000"
    }"#;
    assert!(decode_order(&parse_json(raw).expect("json")).is_none());
}

#[test]
fn list_payload_requires_list_field() {
    assert!(decode_order_list(&parse_json("{}").expect("json")).is_none());
    assert_eq!(
        decode_order_list(&parse_json(r#"{"list":null}"#).expect("json"))
            .expect("null list")
            .len(),
        0
    );
}

#[test]
fn parse_open_order_rejects_invalid_created_time() {
    let mut row = open_order("gtc", "limit", "buy", "live");
    row.created_time = "not-ms".into();
    let error = parse_open_order(row).expect_err("invalid createdTime must fail");
    assert!(error.to_text().contains("createdTime"));
    assert!(error.to_text().contains("not-ms"));
}

#[test]
fn parse_open_order_rejects_unknown_side_type_status_or_tif() {
    let side = open_order("gtc", "limit", "hold", "live");
    let order_type = open_order("gtc", "iceberg", "buy", "live");
    let status = open_order("gtc", "limit", "buy", "waiting");
    let tif = open_order("maker_only", "limit", "buy", "live");

    assert!(parse_open_order(side)
        .expect_err("unknown side must fail")
        .to_text()
        .contains("side"));
    assert!(parse_open_order(order_type)
        .expect_err("unknown type must fail")
        .to_text()
        .contains("orderType"));
    assert!(parse_open_order(status)
        .expect_err("unknown status must fail")
        .to_text()
        .contains("orderStatus"));
    assert!(parse_open_order(tif)
        .expect_err("unknown tif must fail")
        .to_text()
        .contains("timeInForce"));
}

#[test]
fn open_orders_fail_on_a_zero_created_time() {
    let mut row = open_order("gtc", "limit", "buy", "live");
    row.created_time = "0".into();
    assert!(parse_open_orders(vec![open_order("gtc", "limit", "buy", "live"), row]).is_err());
    let parsed = parse_open_orders(vec![open_order("gtc", "market", "buy", "filled")]).unwrap();
    assert_eq!(parsed.len(), 1);
    assert_eq!(parsed[0].created_at_ms, 1_700_000_000_000);
    assert!(matches!(parsed[0].order_type, OrderType::Market));
}

#[test]
fn fee_rows_and_execution_context() {
    let mut row = open_order("gtc", "limit", "buy", "filled");
    row.fee_detail = vec![
        UtaFeeDetail {
            fee_coin: Some("USDT".into()),
            fee: Some(" 0.12 ".into()),
        },
        UtaFeeDetail {
            fee_coin: None,
            fee: Some(" ".into()),
        },
    ];
    row.exec_type = "liquidation".into();
    row.cancel_reason = "risk_control".into();
    let order = parse_open_order(row).expect("order");
    assert_eq!(order.fees, vec!["0.12".to_owned()]);
    assert_eq!(
        order.execution_style.as_deref(),
        Some("liquidation; cancel_reason=risk_control")
    );
    let mut row = open_order("gtc", "limit", "buy", "filled");
    row.fee_detail = vec![UtaFeeDetail {
        fee_coin: None,
        fee: Some("1".into()),
    }];
    assert!(parse_open_order(row)
        .expect_err("fee without coin")
        .to_text()
        .contains("feeDetail.feeCoin"));
    assert_eq!(order_context("", " x "), Some("cancel_reason=x".to_owned()));
    assert_eq!(order_context(" ", ""), None);
}

#[test]
fn get_order_envelope_rejects_non_success_code() {
    let text = r#"{"code":"40109","msg":"success","data":null}"#;
    let resp = parse_object_envelope(text).expect("envelope decodes");
    assert!(resp.into_option("get order").is_err());
}

#[test]
fn get_order_envelope_null_data_is_not_found() {
    let text = r#"{"code":"00000","msg":"success","data":null}"#;
    let resp = parse_object_envelope(text).expect("envelope decodes");
    let found = resp.into_option("get order").expect("success code");
    assert!(found.is_none());
}

#[test]
fn account_assets_decode_strictly() {
    let raw = r#"{"accountEquity":"1","effEquity":"1","imr":"0","mmr":"0","mgnRatio":"0",
        "positionMgnRatio":"0","usdtUnrealisedPnl":"0",
        "assets":[{"coin":"USDT","available":"1","locked":"0","equity":"1"}]}"#;
    let payload = decode_account_assets(&parse_json(raw).expect("json")).expect("payload");
    assert_eq!(payload.assets.len(), 1);
    let missing = raw.replace(r#","equity":"1""#, "");
    assert!(decode_account_assets(&parse_json(&missing).expect("json")).is_none());
}
