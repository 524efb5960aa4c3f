use exchange::bitget_instrument_cache::{refresh_instrument_specs, BitgetInstrumentCache};
use exchange::bitget_instruments::{
    canonical_base, instruments_and_specs_from_rows, instruments_from_rows, native_identity,
    normalize_request, BitgetInstrumentRow, BitgetInstrumentRule, BitgetNativeIdentity,
    InstrumentAssetClass, InstrumentListingStatus, InstrumentMetadataSource, VenueInstrument,
    SCHEMA_VERSION,
};
use exchange::bitget_uta_config::BitgetUtaCategory;
use exchange::error::ExchangeError;

fn number(text: &str) -> f64 {
    text.parse::<f64>().expect("decimal text")
}

fn opt_number(text: &Option<String>) -> Option<f64> {
    text.as_deref().map(number)
}

fn btc_row() -> BitgetInstrumentRow {
    BitgetInstrumentRow {
        symbol: "BTCUSDT".into(),
        category: "USDT-FUTURES".into(),
        base_coin: "BTC".into(),
        quote_coin: "USDT".into(),
        settle_coin: "USDT".into(),
        contract_type: "perpetual".into(),
        status: "online".into(),
        symbol_type: "crypto".into(),
        is_rwa: "NO".into(),
        is_reality: "NO".into(),
        price_multiplier: "0.1".into(),
        quantity_multiplier: "0.0001".into(),
        price_precision: "1".into(),
        quantity_precision: "4".into(),
        min_order_qty: "0.0001".into(),
        min_order_amount: "5".into(),
        fund_interval: "8".into(),
    }
}

fn assert_recorded_schema(instrument: &VenueInstrument) {
    assert_eq!(instrument.schema_version.as_deref(), Some(SCHEMA_VERSION));
}

fn error_text(err: ExchangeError) -> String {
    err.to_text()
}

#[test]
fn into_venue_instrument_maps_base_coin_sizing() {
    let inst = BitgetInstrumentRule::from_row(btc_row())
        .expect("rule")
        .into_venue_instrument(1_700_000_000_000);

    assert_eq!(inst.venue, "bitget");
    assert_eq!(inst.native_symbol, "BTCUSDT");
    assert_eq!(inst.canonical_symbol, "BTC");
    assert_eq!(inst.quote_asset.as_deref(), Some("USDT"));
    assert_eq!(inst.settle_asset.as_deref(), Some("USDT"));
    assert_eq!(opt_number(&inst.contract_size), Some(1.0));
    assert_eq!(opt_number(&inst.price_tick), Some(0.1));
    assert_eq!(opt_number(&inst.qty_step), Some(0.0001));
    assert_eq!(opt_number(&inst.min_qty), Some(0.0001));
    assert_eq!(opt_number(&inst.min_notional), Some(5.0));
    assert_eq!(inst.funding_interval_ms, Some(8 * 60 * 60 * 1000));
    assert_eq!(inst.listing_status, InstrumentListingStatus::Trading);
    assert_eq!(inst.source, InstrumentMetadataSource::OfficialEndpoint);
    assert_recorded_schema(&inst);
    assert!(inst.execution_supported);
}

#[test]
fn coin_future_keeps_identity_but_is_observation_only() {
    let rule = BitgetInstrumentRule::from_row(BitgetInstrumentRow {
        symbol: "BTCUSD_CM".into(),
        category: "COIN-FUTURES".into(),
        quote_coin: "USD".into(),
        settle_coin: "BTC".into(),
        ..btc_row()
    })
    .expect("coin rule");
    let instrument = rule.into_venue_instrument(1);

    assert_eq!(instrument.native_symbol, "BTCUSD_CM");
    assert_eq!(instrument.quote_asset.as_deref(), Some("USD"));
    assert!(!instrument.execution_supported);
}

#[test]
fn instrument_parser_rejects_delivery_future() {
    let err = BitgetInstrumentRule::from_row(BitgetInstrumentRow {
        contract_type: "delivery".into(),
        ..btc_row()
    })
    .expect_err("delivery future");

    assert!(error_text(err).contains("is not a perpetual"));
}

#[test]
fn instrument_parser_falls_back_to_official_quantity_precision() {
    let rule = BitgetInstrumentRule::from_row(BitgetInstrumentRow {
        quantity_multiplier: "0".into(),
        ..btc_row()
    })
    .expect("precision fallback");
    assert_eq!(number(&rule.qty_step), 0.0001);

    let err = BitgetInstrumentRule::from_row(BitgetInstrumentRow {
        quantity_multiplier: "0".into(),
        quantity_precision: String::new(),
        ..btc_row()
    })
    .expect_err("missing qty step");

    assert!(error_text(err).contains("quantityMultiplier/quantityPrecision"));
}

#[test]
fn instruments_from_rows_skips_delivery_and_keeps_all_native_categories() {
    let rows = vec![
        btc_row(),
        BitgetInstrumentRow {
            symbol: "ETHUSD".into(),
            base_coin: "ETH".into(),
            category: "COIN-FUTURES".into(),
            quote_coin: "USD".into(),
            ..btc_row()
        },
        BitgetInstrumentRow {
            symbol: "SOLUSDT_250926".into(),
            base_coin: "SOL".into(),
            contract_type: "delivery".into(),
            ..btc_row()
        },
    ];
    let mapped = instruments_from_rows(rows, 1);

    assert_eq!(mapped.len(), 2);
    assert_eq!(mapped[0].native_symbol, "BTCUSDT");
    assert!(!mapped[1].execution_supported);
}

#[test]
fn native_identity_routes_exact_usdt_usdc_and_coin_symbols() {
    assert_eq!(
        native_identity("BTC").expect("USDT default"),
        BitgetNativeIdentity {
            category: BitgetUtaCategory::UsdtFutures,
            native_symbol: "BTCUSDT".to_owned(),
        }
    );
    assert_eq!(
        native_identity("BTC/USDC").expect("USDC pair"),
        BitgetNativeIdentity {
            category: BitgetUtaCategory::UsdcFutures,
            native_symbol: "BTCPERP".to_owned(),
        }
    );
    assert_eq!(
        native_identity("BTCUSD_CM").expect("COIN native"),
        BitgetNativeIdentity {
            category: BitgetUtaCategory::CoinFutures,
            native_symbol: "BTCUSD_CM".to_owned(),
        }
    );
}

#[test]
fn delisted_contract_maps_to_non_constructible() {
    let inst = BitgetInstrumentRule::from_row(BitgetInstrumentRow {
        status: "offline".into(),
        ..btc_row()
    })
    .expect("rule")
    .into_venue_instrument(1);

    assert_eq!(inst.listing_status, InstrumentListingStatus::Delisted);
}

#[test]
fn native_identity_normalises_case_separators_and_space() {
    assert_eq!(normalize_request("  eth-usdt "), "ETHUSDT");
    assert_eq!(
        native_identity(" eth-usdt ").expect("usdt"),
        BitgetNativeIdentity {
            category: BitgetUtaCategory::UsdtFutures,
            native_symbol: "ETHUSDT".to_owned(),
        }
    );
    assert_eq!(
        native_identity("ethperp").expect("perp"),
        BitgetNativeIdentity {
            category: BitgetUtaCategory::UsdcFutures,
            native_symbol: "ETHPERP".to_owned(),
        }
    );
}

#[test]
fn native_identity_rejects_a_blank_request() {
    let err = native_identity(" /- ").expect_err("blank");
    assert_eq!(error_text(err), "unsupported symbol:  /- ");
    assert_eq!(
        native_identity(" / - ").expect("inner space kept"),
        BitgetNativeIdentity {
            category: BitgetUtaCategory::UsdtFutures,
            native_symbol: " USDT".to_owned(),
        }
    );
}

#[test]
fn canonical_base_strips_the_category_suffix() {
    assert_eq!(canonical_base("BTCUSDT", BitgetUtaCategory::UsdtFutures), "BTC");
    assert_eq!(canonical_base("BTCPERP", BitgetUtaCategory::UsdcFutures), "BTC");
    assert_eq!(canonical_base("BTCUSD_CM", BitgetUtaCategory::CoinFutures), "BTC");
    assert_eq!(canonical_base("BTCUSDT", BitgetUtaCategory::Spot), "BTCUSDT");
    assert_eq!(canonical_base("BTC", BitgetUtaCategory::UsdtFutures), "BTC");
}

#[test]
fn spot_rows_settle_in_quote_and_carry_no_funding() {
    let rule = BitgetInstrumentRule::from_row(BitgetInstrumentRow {
        category: "spot".into(),
        contract_type: "".into(),
        settle_coin: "".into(),
        ..btc_row()
    })
    .expect("spot rule");
    assert_eq!(rule.category, BitgetUtaCategory::Spot);
    assert_eq!(rule.settle, "USDT");
    assert_eq!(rule.funding_interval_ms, None);
    let inst = rule.into_venue_instrument(7);
    assert_eq!(inst.display_symbol, "BTC-USDT Spot");
    assert_eq!(inst.product_type.as_deref(), Some("spot"));
    assert_eq!(inst.settle_asset, None);
    assert_eq!(inst.margin_asset, None);
    assert_eq!(
        inst.source_url.as_deref(),
        Some("/api/v3/market/instruments?category=SPOT")
    );
    assert_eq!(inst.checked_at_ms, 7);
}

#[test]
fn coin_rows_settle_in_base_when_settle_coin_is_blank() {
    let rule = BitgetInstrumentRule::from_row(BitgetInstrumentRow {
        symbol: "btcusd_cm".into(),
        category: "coin-futures".into(),
        quote_coin: "usd".into(),
        settle_coin: "  ".into(),
        ..btc_row()
    })
    .expect("coin rule");
    assert_eq!(rule.symbol, "BTCUSD_CM");
    assert_eq!(rule.quote, "USD");
    assert_eq!(rule.settle, "BTC");
    assert!(!rule.execution_supported);
    let inst = rule.into_venue_instrument(1);
    assert_eq!(inst.display_symbol, "BTC-USD Perp");
    assert_eq!(inst.margin_asset.as_deref(), Some("BTC"));
}

#[test]
fn reality_rows_are_observation_only_and_classed_by_symbol_type() {
    let rule = BitgetInstrumentRule::from_row(BitgetInstrumentRow {
        symbol: "TSLAUSDT".into(),
        base_coin: "TSLA".into(),
        is_rwa: "YES".into(),
        is_reality: " true ".into(),
        symbol_type: "Stock".into(),
        ..btc_row()
    })
    .expect("reality rule");
    assert_eq!(rule.asset_class, InstrumentAssetClass::Equity);
    assert!(!rule.execution_supported);

    let metal = BitgetInstrumentRule::from_row(BitgetInstrumentRow {
        is_rwa: "1".into(),
        symbol_type: "metal".into(),
        ..btc_row()
    })
    .expect("metal rule");
    assert_eq!(metal.asset_class, InstrumentAssetClass::Metal);
    assert!(metal.execution_supported);

    let commodity = BitgetInstrumentRule::from_row(BitgetInstrumentRow {
        is_rwa: "yes".into(),
        symbol_type: "commodity".into(),
        ..btc_row()
    })
    .expect("commodity rule");
    assert_eq!(commodity.asset_class, InstrumentAssetClass::Unknown);
}

#[test]
fn malformed_flags_are_rejected_with_the_raw_value() {
    let err = BitgetInstrumentRule::from_row(BitgetInstrumentRow {
        is_rwa: "maybe".into(),
        ..btc_row()
    })
    .expect_err("bad flag");
    assert_eq!(
        error_text(err),
        "bitget api error validation: bitget instrument isRwa must be YES/NO: \"maybe\""
    );
}

#[test]
fn unknown_category_and_wrong_quote_are_rejected() {
    let err = BitgetInstrumentRule::from_row(BitgetInstrumentRow {
        category: "OPTIONS".into(),
        ..btc_row()
    })
    .expect_err("bad category");
    assert_eq!(
        error_text(err),
        "bitget api error validation: bitget contract BTCUSDT unsupported category OPTIONS"
    );

    let err = BitgetInstrumentRule::from_row(BitgetInstrumentRow {
        quote_coin: "usdc".into(),
        ..btc_row()
    })
    .expect_err("bad quote");
    assert_eq!(
        error_text(err),
        "bitget api error validation: bitget contract BTCUSDT quoteCoin USDC does not match USDT-FUTURES"
    );

    let err = BitgetInstrumentRule::from_row(BitgetInstrumentRow {
        base_coin: " ".into(),
        ..btc_row()
    })
    .expect_err("missing base");
    assert_eq!(
        error_text(err),
        "bitget api error validation: bitget instrument missing baseCoin"
    );
}

#[test]
fn precision_fallback_bounds_and_messages() {
    let rule = BitgetInstrumentRule::from_row(BitgetInstrumentRow {
        price_multiplier: "".into(),
        price_precision: "0".into(),
        ..btc_row()
    })
    .expect("unit tick");
    assert_eq!(rule.price_tick, "1");

    let rule = BitgetInstrumentRule::from_row(BitgetInstrumentRow {
        price_multiplier: "-1".into(),
        price_precision: " 18 ".into(),
        ..btc_row()
    })
    .expect("fine tick");
    assert_eq!(rule.price_tick, "0.000000000000000001");
    assert_eq!(number(&rule.price_tick), 1e-18);

    let err = BitgetInstrumentRule::from_row(BitgetInstrumentRow {
        price_multiplier: "".into(),
        price_precision: "19".into(),
        ..btc_row()
    })
    .expect_err("out of range");
    assert_eq!(
        error_text(err),
        "bitget api error validation: bitget instrument priceMultiplier/pricePrecision precision out of range: 19"
    );

    let err = BitgetInstrumentRule::from_row(BitgetInstrumentRow {
        price_multiplier: "x".into(),
        price_precision: "99999999999".into(),
        ..btc_row()
    })
    .expect_err("not an i32");
    assert_eq!(
        error_text(err),
        "bitget api error validation: bitget instrument priceMultiplier/pricePrecision missing: \"x\"/\"99999999999\""
    );
}

#[test]
fn minimum_quantity_must_be_positive_and_min_notional_is_optional() {
    let err = BitgetInstrumentRule::from_row(BitgetInstrumentRow {
        min_order_qty: " 0 ".into(),
        ..btc_row()
    })
    .expect_err("zero min qty");
    assert_eq!(
        error_text(err),
        "bitget api error validation: bitget instrument minOrderQty must be positive finite: \" 0 \""
    );

    let rule = BitgetInstrumentRule::from_row(BitgetInstrumentRow {
        min_order_amount: "inf".into(),
        ..btc_row()
    })
    .expect("rule without notional");
    assert_eq!(rule.min_notional, None);
}

#[test]
fn funding_interval_rounds_whole_hours() {
    let with_interval = |raw: &str| {
        BitgetInstrumentRule::from_row(BitgetInstrumentRow {
            fund_interval: raw.into(),
            ..btc_row()
        })
        .expect("rule")
        .funding_interval_ms
    };
    assert_eq!(with_interval("4"), Some(4 * 3_600_000));
    assert_eq!(with_interval("7.5"), Some(8 * 3_600_000));
    assert_eq!(with_interval("7.49"), Some(7 * 3_600_000));
    assert_eq!(with_interval("0.5"), Some(3_600_000));
    assert_eq!(with_interval("0.4"), None);
    assert_eq!(with_interval(""), None);
    assert_eq!(with_interval("-8"), None);
    assert_eq!(with_interval("1e30"), None);
}

#[test]
fn specs_follow_instruments_in_row_order() {
    let rows = vec![
        BitgetInstrumentRow {
            symbol: "".into(),
            ..btc_row()
        },
        btc_row(),
        BitgetInstrumentRow {
            symbol: "ETHPERP".into(),
            base_coin: "ETH".into(),
            category: "USDC-FUTURES".into(),
            quote_coin: "USDC".into(),
            settle_coin: "USDC".into(),
            status: "limit_open".into(),
            ..btc_row()
        },
    ];
    let (instruments, specs) = instruments_and_specs_from_rows(rows, 5);
    assert_eq!(instruments.len(), 2);
    assert_eq!(specs.len(), 2);
    assert_eq!(specs[0].native_symbol, "BTCUSDT");
    assert_eq!(specs[1].native_symbol, "ETHPERP");
    assert_eq!(specs[1].listing_status, InstrumentListingStatus::Suspended);
    assert_eq!(instruments[1].listing_status, InstrumentListingStatus::Suspended);
    assert_eq!(specs[1].price_tick, "0.1");
}

#[test]
fn cache_resolves_native_symbols_and_base_aliases() {
    let (_, specs) = instruments_and_specs_from_rows(
        vec![
            btc_row(),
            BitgetInstrumentRow {
                symbol: "ETHPERP".into(),
                base_coin: "ETH".into(),
                category: "USDC-FUTURES".into(),
                quote_coin: "USDC".into(),
                settle_coin: "USDC".into(),
                ..btc_row()
            },
        ],
        1,
    );
    let mut cache = BitgetInstrumentCache::new();
    assert!(!cache.is_fresh(10));
    cache.replace(specs, 1_000);

    assert_eq!(cache.resolve("BTCUSDT").expect("native").native_symbol, "BTCUSDT");
    assert_eq!(cache.resolve("btc").expect("base alias").native_symbol, "BTCUSDT");
    assert_eq!(cache.resolve("btc/usdt").expect("pair").native_symbol, "BTCUSDT");
    assert_eq!(cache.resolve("ETHPERP").expect("usdc native").native_symbol, "ETHPERP");
    assert_eq!(cache.resolve("eth-usdc").expect("usdc alias").native_symbol, "ETHPERP");
    assert_eq!(
        error_text(cache.resolve("SOL").expect_err("unknown")),
        "unsupported symbol: SOL"
    );
    assert_eq!(
        error_text(cache.resolve("  ").expect_err("blank")),
        "unsupported symbol:   "
    );

    assert!(cache.is_fresh(1_000));
    assert!(cache.is_fresh(1_000 + 6 * 3_600_000 - 1));
    assert!(!cache.is_fresh(1_000 + 6 * 3_600_000));

    cache.replace(Vec::new(), 2_000);
    assert!(!cache.is_fresh(2_000));
    assert!(cache.resolve("BTCUSDT").is_err());
}

#[test]
fn refresh_keeps_spot_out_of_the_perpetual_cache() {
    let mut cache = BitgetInstrumentCache::new();
    let spot = BitgetInstrumentRow {
        category: "SPOT".into(),
        contract_type: "".into(),
        min_order_amount: "1".into(),
        fund_interval: "".into(),
        ..btc_row()
    };
    let usdc = BitgetInstrumentRow {
        symbol: "BTCPERP".into(),
        category: "USDC-FUTURES".into(),
        quote_coin: "USDC".into(),
        settle_coin: "USDC".into(),
        ..btc_row()
    };
    let delivery = BitgetInstrumentRow { contract_type: "delivery".into(), ..btc_row() };
    let instruments = refresh_instrument_specs(
        &mut cache,
        vec![btc_row(), delivery],
        vec![usdc],
        vec![],
        vec![spot],
        1_700_000_000_000,
    );
    let symbols: Vec<_> = instruments.iter().map(|i| i.native_symbol.clone()).collect();
    assert_eq!(symbols, vec!["BTCUSDT", "BTCPERP", "BTCUSDT"]);
    assert!(cache.is_fresh(1_700_000_000_001));
    let spec = cache.resolve("BTCUSDT").expect("futures spec");
    assert_eq!(spec.category, BitgetUtaCategory::UsdtFutures);
    assert_eq!(cache.resolve("BTCUSDC").expect("usdc alias").native_symbol, "BTCPERP");
    assert!(matches!(cache.resolve("ETHUSDT"), Err(ExchangeError::UnsupportedSymbol(_))));
}

#[test]
fn instrument_lists_default_absent_members_to_empty() {
    let rows = exchange::bitget_instrument_rows::instrument_rows_from_body(
        r#"{"code":"00000","msg":"success","data":[{"symbol":"BTCUSDT","category":"USDT-FUTURES","baseCoin":"BTC","quoteCoin":"USDT","status":"online","extra":1}]}"#,
    )
    .expect("rows");
    assert_eq!(rows.len(), 1);
    assert_eq!(rows[0].symbol, "BTCUSDT");
    assert_eq!(rows[0].fund_interval, "");
    let bad = exchange::bitget_instrument_rows::instrument_rows_from_body(
        r#"{"code":"00000","data":[{"symbol":1}]}"#,
    );
    assert!(bad.is_err());
    assert_eq!(
        exchange::bitget_instrument_rows::instruments_path(
            exchange::bitget_uta_config::BitgetUtaCategory::UsdcFutures
        ),
        "/api/v3/market/instruments?category=USDC-FUTURES"
    );
}

#[test]
fn a_request_routes_as_its_normal_form() {
    for requested in [" btc-usdt ", "eth/usdc", "BTCUSD_CM", "sol"] {
        let normal = normalize_request(requested);
        assert_eq!(native_identity(&normal).unwrap(), native_identity(requested).unwrap());
    }
    assert!(native_identity(" /- ").is_err());
    let bared = normalize_request("/ a");
    assert_eq!(bared, " A");
    assert_ne!(native_identity(&bared).unwrap(), native_identity("/ a").unwrap());
}
