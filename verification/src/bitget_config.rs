//! Bitget adapter configuration.

use vstd::prelude::*;

verus! {

/// API credentials of a Bitget account.
#[derive(Debug)]
pub struct BitgetCredentials {
    pub api_key: String,
    pub api_secret: String,
    pub passphrase: String,
}

/// Bitget `marginMode`, required when placing an order. It must match the
/// account's position mode: an account set to isolated rejects `crossed`
/// orders with error 40725 / 40808.
#[derive(Clone, Copy, Debug, PartialEq, Eq, Structural)]
pub enum BitgetMarginMode {
    Crossed,
    Isolated,
}

pub open spec fn margin_mode_text(m: BitgetMarginMode) -> Seq<char> {
    match m {
        BitgetMarginMode::Crossed => "crossed"@,
        BitgetMarginMode::Isolated => "isolated"@,
    }
}

impl BitgetMarginMode {
    /// The wire value of the margin mode.
    pub fn as_str(self) -> (r: &'static str)
        ensures
            r@ == margin_mode_text(self),
    {
        match self {
            BitgetMarginMode::Crossed => "crossed",
            BitgetMarginMode::Isolated => "isolated",
        }
    }
}

impl Default for BitgetMarginMode {
    fn default() -> (r: Self)
        ensures
            r == BitgetMarginMode::Crossed,
    {
        BitgetMarginMode::Crossed
    }
}

/// Settings of a Bitget adapter.
#[derive(Debug)]
pub struct BitgetConfig {
    pub credentials: Option<BitgetCredentials>,
    pub allow_live_writes: bool,
    pub timeout_secs: u64,
    pub qps: u32,
    pub base_url_override: Option<String>,
    /// The margin mode used when placing orders; isolated accounts set it.
    pub margin_mode: BitgetMarginMode,
}

impl BitgetConfig {
    /// A read-only configuration with the venue's transport defaults: no
    /// credentials, live writes off, the production host and crossed margin.
    pub fn from_venue_defaults(timeout_secs: u64, qps: u32) -> (r: Self)
        ensures
            r.credentials is None,
            !r.allow_live_writes,
            r.timeout_secs == timeout_secs,
            r.qps == qps,
            r.base_url_override is None,
            r.margin_mode == BitgetMarginMode::Crossed,
    {
        BitgetConfig {
            credentials: None,
            allow_live_writes: false,
            timeout_secs,
            qps,
            base_url_override: None,
            margin_mode: BitgetMarginMode::Crossed,
        }
    }
}

} // verus!
