use exchange::bitget_uta_market_data::{
    decode_funding_item, decode_ticker_item, funding_rates_from_body, instrument_funding_interval,
    instruments_from_body, next_interval_boundary, parse_positive_i64, tickers_from_body,
    UtaInstrumentItem,
};
use exchange::error::ExchangeError;
use exchange::json::parse_json;

#[test]
fn ticker_row_uses_v3_field_names() {
    let raw = r#"{
        "category": "USDT-FUTURES",
        "symbol": "BTCUSDT",
        "ts": "1779511245529",
        "lastPrice": "75492.1",
        "openPrice24h": "77650.9",
        "ask1Price": "75492.2",
        "bid1Price": "75492.1",
        "bid1Size": "1.4162",
        "ask1Size": "29.8745",
        "volume24h": "44545.8656",
        "turnover24h": "3404219299.89529",
        "indexPrice": "75525.1361651486510947",
        "markPrice": "75492.1",
        "fundingRate": "0.000078",
        "openInterest": "31601.0065"
    }"#;
    let item = decode_ticker_item(&parse_json(raw).unwrap()).expect("ticker row");
    assert_eq!(item.symbol, "BTCUSDT");
    assert_eq!(item.bid1_price, "75492.1");
    assert_eq!(item.ask1_price, "75492.2");
    assert_eq!(item.last_price, "75492.1");
    assert_eq!(item.quote_volume_24h, "3404219299.89529");
    assert_eq!(item.volume_24h, "44545.8656");
    assert_eq!(item.index_price, "75525.1361651486510947");
    assert_eq!(item.open_interest, "31601.0065");
    assert_eq!(item.funding_rate, "0.000078");
    assert_eq!(item.next_funding_time, "");
    assert_eq!(item.ts, "1779511245529");
}

#[test]
fn ticker_payload_accepts_nullable_optional_numeric_fields() {
    let raw = r#"{
        "symbol":"TRXUSDT",
        "lastPrice":"0.32661",
        "bid1Price":"0.32660",
        "ask1Price":"0.32661",
        "bid1Size":null,
        "ask1Size":null,
        "turnover24h":"985015.6595",
        "nextFundingTime":null,
        "ts":"1784517005016"
    }"#;
    let item = decode_ticker_item(&parse_json(raw).unwrap()).expect("nullable ticker fields parse");
    assert!(item.bid1_size.is_empty());
    assert!(item.ask1_size.is_empty());
    assert!(item.next_funding_time.is_empty());
    assert_eq!(item.quote_volume_24h, "985015.6595");
}

#[test]
fn ticker_row_rejects_numbers_and_a_missing_symbol() {
    assert!(decode_ticker_item(&parse_json(r#"{"symbol":"X","lastPrice":1.5}"#).unwrap()).is_none());
    assert!(decode_ticker_item(&parse_json(r#"{"lastPrice":"1"}"#).unwrap()).is_none());
    assert!(decode_ticker_item(&parse_json(r#"["BTCUSDT","1"]"#).unwrap()).is_some());
}

#[test]
fn funding_row_uses_v3_fields_including_interval() {
    let raw = r#"{
        "symbol": "BTCUSDT",
        "fundingRate": "0.000071",
        "fundingRateInterval": "8",
        "nextUpdate": "1743062400000",
        "minFundingRate": "-0.003",
        "maxFundingRate": "0.003"
    }"#;
    let item = decode_funding_item(&parse_json(raw).unwrap()).expect("funding row");
    assert_eq!(item.symbol, "BTCUSDT");
    assert_eq!(item.funding_rate, "0.000071");
    assert_eq!(item.funding_rate_interval, "8");
    assert_eq!(item.next_update, "1743062400000");
    assert!(decode_funding_item(&parse_json(r#"{"symbol":"X","fundingRate":null}"#).unwrap()).is_none());
}

#[test]
fn list_bodies_give_rows_or_the_first_failure() {
    let body = r#"{"code":"00000","msg":"success","data":[{"symbol":"BTCUSDT","lastPrice":"1"},{"symbol":"ETHUSDT"}]}"#;
    let rows = tickers_from_body(body, "tickers").unwrap();
    assert_eq!(rows.len(), 2);
    assert_eq!(rows[1].symbol, "ETHUSDT");
    match tickers_from_body(r#"{"code":"40034","msg":"Parameter does not exist","data":[]}"#, "ticker") {
        Err(ExchangeError::Api { code, message, .. }) => {
            assert_eq!(code, "40034");
            assert_eq!(message, "ticker: Parameter does not exist");
        }
        other => panic!("expected API error, got {other:?}"),
    }
    match tickers_from_body(r#"{"code":"00000","data":[{"lastPrice":"1"}]}"#, "tickers") {
        Err(ExchangeError::Parse(message)) => assert_eq!(message, "bitget json: invalid payload"),
        other => panic!("expected parse error, got {other:?}"),
    }
    assert!(tickers_from_body("nope", "tickers").is_err());
    let rates = funding_rates_from_body(
        r#"{"code":"00000","data":[{"symbol":"BTCUSDT","fundingRate":"0.0001","nextUpdate":"1","fundingRateInterval":"4"}]}"#,
        "current-fund-rate",
    )
    .unwrap();
    assert_eq!(rates[0].funding_rate_interval, "4");
    let instruments = instruments_from_body(
        r#"{"code":"00000","data":[{"symbol":"BTCUSDT","fundInterval":"8"},{"symbol":"ETHUSDT"}]}"#,
        "instruments",
    )
    .unwrap();
    assert_eq!(instruments[0].fund_interval, "8");
    assert_eq!(instruments[1].fund_interval, "");
}

#[test]
fn funding_intervals_are_kept_only_when_published() {
    let item = |fund_interval: &str| UtaInstrumentItem {
        symbol: "BTCUSDT".to_owned(),
        fund_interval: fund_interval.to_owned(),
    };
    assert_eq!(instrument_funding_interval(&item("8")), ("BTCUSDT".to_owned(), Some(8)));
    assert_eq!(instrument_funding_interval(&item("4")).1, Some(4));
    assert_eq!(instrument_funding_interval(&item("3")).1, None);
    assert_eq!(instrument_funding_interval(&item("")).1, None);
    assert_eq!(instrument_funding_interval(&item("4294967304")).1, None);
}

#[test]
fn next_funding_time_is_the_next_grid_point() {
    assert_eq!(next_interval_boundary(1_779_511_245_529, 8), Some(1_779_523_200_000));
    assert_eq!(next_interval_boundary(0, 4), Some(14_400_000));
    assert_eq!(next_interval_boundary(28_800_000, 8), Some(57_600_000));
    assert_eq!(next_interval_boundary(-1, 1), Some(3_600_000));
    assert_eq!(next_interval_boundary(5, 0), None);
    assert_eq!(next_interval_boundary(i64::MAX, 1), None);
}

#[test]
fn positive_times_must_read_as_positive_integers() {
    assert_eq!(parse_positive_i64("1743062400000"), Some(1_743_062_400_000));
    assert_eq!(parse_positive_i64("0"), None);
    assert_eq!(parse_positive_i64("-5"), None);
    assert_eq!(parse_positive_i64(""), None);
    assert_eq!(parse_positive_i64("1.5"), None);
}
