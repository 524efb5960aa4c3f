//! Parsing, validation and request-shaping logic for the Binance and Bitget
//! exchange adapters, with machine-checked contracts.

pub mod text;
pub mod decimal;
pub mod rounding;
pub mod json;
pub mod error;
pub mod orders;
pub mod symbols;
pub mod json_out;
pub mod bitget_uta_config;
pub mod bitget_market_data;
pub mod bitget_config;
pub mod bitget_response;
pub mod bitget_order_compiler;
pub mod bitget_uta_ws_user;
pub mod binance_ws_user;
pub mod binance_ws_spot_ticker;
pub mod binance_ws_ticker;
pub mod clock;
pub mod bitget_uta_ws_ticker_data;
pub mod bitget_uta_ws_spot_ticker;
pub mod bitget_uta_private_data;
pub mod bitget_instruments;
pub mod bitget_instrument_cache;
pub mod bitget_uta_ws_user_data;
pub mod bitget_uta_ws_market;
pub mod bitget_uta_ws_trade;
pub mod binance_ws_trade;
pub mod bitget_uta_private_rest;
pub mod bitget_support;
pub mod ws_subscriptions;
pub mod bitget_uta_market_data;
pub mod bitget_transfers;
pub mod bitget_withdrawals;
pub mod bitget_uta_trade_data;
pub mod bitget_asset_valuations;
pub mod bitget_instrument_rows;
