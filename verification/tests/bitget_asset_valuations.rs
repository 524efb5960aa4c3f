use exchange::bitget_asset_valuations::{parse_asset_valuations, AccountAssetValuationRow};
use exchange::error::ExchangeError;

fn row(coin: &str, usd_value: &str) -> AccountAssetValuationRow {
    AccountAssetValuationRow { coin: coin.to_owned(), usd_value: usd_value.to_owned() }
}

#[test]
fn valuations_are_sorted_by_coin_and_stable() {
    let rows = vec![row("USDT", "10"), row(" BTC ", " 50000.5 "), row("ETH", "2"), row("BTC", "1")];
    let out = parse_asset_valuations(&rows, &None, 9).expect("valuations");
    let seen: Vec<(&str, &str)> =
        out.iter().map(|v| (v.currency.as_str(), v.usd_value.as_str())).collect();
    assert_eq!(seen, vec![("BTC", "50000.5"), ("BTC", "1"), ("ETH", "2"), ("USDT", "10")]);
    assert!(out.iter().all(|v| v.venue == "bitget" && v.observed_at_ms == 9));
    assert_eq!(out[0].source, "bitget.GET /api/v3/account/assets.usdValue");
}

#[test]
fn valuations_keep_the_requested_coin_only() {
    let rows = vec![row("USDT", "10"), row("usdc", "3"), row("ETH", "oops")];
    let out = parse_asset_valuations(&rows, &Some("USDC".to_owned()), 1).expect("valuations");
    assert_eq!(out.len(), 1);
    assert_eq!(out[0].currency, "usdc");
}

#[test]
fn valuation_rows_that_do_not_read_fail_the_read() {
    let empty = parse_asset_valuations(&vec![row(" ", "1")], &None, 1).unwrap_err();
    assert!(matches!(empty, ExchangeError::Parse(m) if m == "bitget account usdValue coin is empty"));
    let bad = parse_asset_valuations(&vec![row("ETH", "NaN")], &None, 1).unwrap_err();
    assert!(matches!(bad, ExchangeError::Parse(m) if m == "bitget account usdValue invalid for ETH: NaN"));
    let inf = parse_asset_valuations(&vec![row("ETH", "1e400")], &None, 1).unwrap_err();
    assert!(matches!(inf, ExchangeError::Parse(_)));
}
