use exchange::bitget_market_data::{bitget_depth_limit, spot_symbol_matches, valid_bitget_funding_interval};

#[test]
fn valid_bitget_funding_interval_rejects_unknown_values() {
    assert_eq!(valid_bitget_funding_interval(Some(1)), Some(1));
    assert_eq!(valid_bitget_funding_interval(Some(2)), Some(2));
    assert_eq!(valid_bitget_funding_interval(Some(4)), Some(4));
    assert_eq!(valid_bitget_funding_interval(Some(8)), Some(8));
    assert_eq!(valid_bitget_funding_interval(None), None);
    assert_eq!(valid_bitget_funding_interval(Some(0)), None);
    assert_eq!(valid_bitget_funding_interval(Some(3)), None);
    assert_eq!(valid_bitget_funding_interval(Some(6)), None);
}

#[test]
fn bitget_depth_limit_preserves_supported_requested_depth() {
    assert_eq!(bitget_depth_limit(0), 1);
    assert_eq!(bitget_depth_limit(1), 1);
    assert_eq!(bitget_depth_limit(7), 7);
    assert_eq!(bitget_depth_limit(20), 20);
    assert_eq!(bitget_depth_limit(1_000), 1_000);
    assert_eq!(bitget_depth_limit(2_000), 1_000);
}

#[test]
fn spot_symbol_matches_recognises_pair_symbol() {
    let symbols = vec!["BTC/USDT".to_owned()];
    assert!(spot_symbol_matches("BTCUSDT", Some(&symbols)));
    assert!(!spot_symbol_matches("ETHUSDT", Some(&symbols)));
    assert!(spot_symbol_matches("BTCUSDT", None));
    // Inputs missing a known quote suffix have no parseable pair.
    assert!(!spot_symbol_matches("WHATEVER", None));
}

#[test]
fn depth_limit_edges() {
    assert_eq!(bitget_depth_limit(999), 999);
    assert_eq!(bitget_depth_limit(1_001), 1_000);
    assert_eq!(bitget_depth_limit(u32::MAX), 1_000);
}

#[test]
fn spot_symbol_matches_lowercase_and_usdc_pairs() {
    let symbols = vec!["eth-usdc".to_owned(), "SOL".to_owned()];
    assert!(spot_symbol_matches("ethusdc", Some(&symbols)));
    assert!(spot_symbol_matches("SOLUSDT", Some(&symbols)));
    assert!(!spot_symbol_matches("SOLUSDC", Some(&symbols)));
}
