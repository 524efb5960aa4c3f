//! Bitget V3 / UTA instruments (`GET /api/v3/market/instruments`): native
//! symbol identity, the sizing rule of each listed row, and the instrument
//! records built from the rows.
//!
//! Spot and linear (USDT, USDC) products are executable when every required
//! constraint is present. COIN inverse contracts and Reality products keep
//! their identity but are observation-only. Sizing values are kept as the
//! decimal text the venue sent.

use vstd::prelude::*;
use crate::binance_ws_user::finite_value_of;
use crate::bitget_order_compiler::{validation_error, validation_error_view};
use crate::bitget_uta_config::{category_query, BitgetUtaCategory};
use crate::decimal::{
    decimal_wf, is_finite_number, is_positive_reading, number_kind, parse_number_text,
    reads_finite, reads_positive, Decimal, NumberText,
};
use crate::error::{ErrorView, ExchangeError};
use crate::rounding::{rounded_magnitude, rounded_magnitude_capped};
use crate::symbols::ends_with_seq;
use crate::text::{
    blank, lemma_upper_idempotent, upper_char, debug_quote, debug_quoted, ends_with, eq_ignore_ascii_case, eq_ignore_case, int_text,
    is_blank, lower, parse_i64, parse_int_text, push_char, push_int, push_str, str_eq, to_lower,
    to_upper, trim, trimmed, upper,
};

verus! {

/// The schema tag recorded on every instrument built here.
pub const SCHEMA_VERSION: &'static str = "bitget-uta-get-instruments-2026-06-03";

/// The REST path the instrument rows come from.
pub const INSTRUMENT_PATH: &'static str = "/api/v3/market/instruments";

/// One hour in milliseconds.
pub const HOUR_MS: i64 = 3600000;

/// The largest funding interval, in hours, whose length in milliseconds an
/// `i64` holds.
pub const MAX_FUNDING_HOURS: u64 = 2562047788015;

// ---------------------------------------------------------------------------
// Native identity
// ---------------------------------------------------------------------------

pub open spec fn is_pair_separator(c: char) -> bool {
    c == '/' || c == '-'
}

/// `s` without `/` and `-`.
pub open spec fn without_pair_separators(s: Seq<char>) -> Seq<char>
    decreases s.len(),
{
    if s.len() == 0 {
        s
    } else if is_pair_separator(s.last()) {
        without_pair_separators(s.drop_last())
    } else {
        without_pair_separators(s.drop_last()).push(s.last())
    }
}

/// A requested symbol as the venue's tables key it: trimmed, without `/` and
/// `-`, in upper case.
pub open spec fn normalized_request(s: Seq<char>) -> Seq<char> {
    upper(without_pair_separators(trim(s)))
}

/// The category and native symbol a request names: `..._CM` is a COIN
/// contract, `...PERP` a USDC contract, `...USDC` the USDC contract of its
/// base, and anything else the USDT contract of its base.
pub open spec fn native_identity_of(s: Seq<char>) -> Option<(BitgetUtaCategory, Seq<char>)> {
    let n = normalized_request(s);
    if n.len() == 0 {
        None
    } else if ends_with_seq(n, "_CM"@) {
        Some((BitgetUtaCategory::CoinFutures, n))
    } else if ends_with_seq(n, "PERP"@) {
        Some((BitgetUtaCategory::UsdcFutures, n))
    } else if ends_with_seq(n, "USDC"@) {
        Some((BitgetUtaCategory::UsdcFutures, n.subrange(0, n.len() - "USDC"@.len()) + "PERP"@))
    } else if ends_with_seq(n, "USDT"@) {
        Some((BitgetUtaCategory::UsdtFutures, n))
    } else {
        Some((BitgetUtaCategory::UsdtFutures, n + "USDT"@))
    }
}

#[derive(Debug, PartialEq, Eq)]
pub struct BitgetNativeIdentity {
    pub category: BitgetUtaCategory,
    pub native_symbol: String,
}

fn drop_pair_separators(s: &str) -> (r: String)
    ensures
        r@ == without_pair_separators(s@),
{
    let n = s.unicode_len();
    let mut out = String::new();
    let mut i: usize = 0;
    while i < n
        invariant
            n == s@.len(),
            i <= n,
            out@ == without_pair_separators(s@.subrange(0, i as int)),
        decreases n - i,
    {
        let c = s.get_char(i);
        proof {
            let next = s@.subrange(0, i + 1);
            assert(next.drop_last() =~= s@.subrange(0, i as int));
            assert(next.last() == c);
        }
        if !(c == '/' || c == '-') {
            push_char(&mut out, c);
        }
        i = i + 1;
    }
    assert(s@.subrange(0, n as int) =~= s@);
    out
}

/// `requested` trimmed, without `/` and `-`, upper-cased.
pub fn normalize_request(requested: &str) -> (r: String)
    ensures
        r@ == normalized_request(requested@),
{
    let t = trimmed(requested);
    let d = drop_pair_separators(t.as_str());
    to_upper(d.as_str())
}

/// Routes a requested symbol to its native V3 identity; a blank request is
/// an unsupported symbol.
pub fn native_identity(requested: &str) -> (r: Result<BitgetNativeIdentity, ExchangeError>)
    ensures
        match r {
            Ok(id) => native_identity_of(requested@) == Some((id.category, id.native_symbol@)),
            Err(e) => native_identity_of(requested@).is_none() && e@ == ErrorView::UnsupportedSymbol(
                requested@,
            ),
        },
{
    let normalized = normalize_request(requested);
    let n = normalized.unicode_len();
    if n == 0 {
        return Err(ExchangeError::UnsupportedSymbol(requested.to_owned()));
    }
    if ends_with(normalized.as_str(), "_CM") {
        return Ok(
            BitgetNativeIdentity {
                category: BitgetUtaCategory::CoinFutures,
                native_symbol: normalized,
            },
        );
    }
    if ends_with(normalized.as_str(), "PERP") {
        return Ok(
            BitgetNativeIdentity {
                category: BitgetUtaCategory::UsdcFutures,
                native_symbol: normalized,
            },
        );
    }
    if ends_with(normalized.as_str(), "USDC") {
        let k = "USDC".unicode_len();
        let mut native = normalized.as_str().substring_char(0, n - k).to_owned();
        push_str(&mut native, "PERP");
        return Ok(BitgetNativeIdentity { category: BitgetUtaCategory::UsdcFutures, native_symbol: native });
    }
    if ends_with(normalized.as_str(), "USDT") {
        return Ok(
            BitgetNativeIdentity {
                category: BitgetUtaCategory::UsdtFutures,
                native_symbol: normalized,
            },
        );
    }
    let mut native = normalized;
    push_str(&mut native, "USDT");
    Ok(BitgetNativeIdentity { category: BitgetUtaCategory::UsdtFutures, native_symbol: native })
}

/// The suffix a category's native symbols carry after their base.
pub open spec fn native_suffix(category: BitgetUtaCategory) -> Option<Seq<char>> {
    match category {
        BitgetUtaCategory::UsdtFutures => Some("USDT"@),
        BitgetUtaCategory::UsdcFutures => Some("PERP"@),
        BitgetUtaCategory::CoinFutures => Some("USD_CM"@),
        BitgetUtaCategory::Spot => None,
    }
}

/// The base a native symbol stands for: the symbol without its category's
/// suffix, when it carries it.
pub open spec fn canonical_base_of(native: Seq<char>, category: BitgetUtaCategory) -> Seq<char> {
    match native_suffix(category) {
        Some(x) => if ends_with_seq(native, x) {
            native.subrange(0, native.len() - x.len())
        } else {
            native
        },
        None => native,
    }
}

pub fn canonical_base(native: &str, category: BitgetUtaCategory) -> (r: String)
    ensures
        r@ == canonical_base_of(native@, category),
{
    let suffix = match category {
        BitgetUtaCategory::UsdtFutures => "USDT",
        BitgetUtaCategory::UsdcFutures => "PERP",
        BitgetUtaCategory::CoinFutures => "USD_CM",
        BitgetUtaCategory::Spot => {
            return native.to_owned();
        },
    };
    if ends_with(native, suffix) {
        let n = native.unicode_len();
        let k = suffix.unicode_len();
        native.substring_char(0, n - k).to_owned()
    } else {
        native.to_owned()
    }
}

// ---------------------------------------------------------------------------
// Row fields
// ---------------------------------------------------------------------------

/// Where an instrument stands in its listing life.
#[derive(Clone, Copy, Debug, PartialEq, Eq, Structural)]
pub enum InstrumentListingStatus {
    Trading,
    PreLaunch,
    Suspended,
    Delisted,
    Unknown,
}

/// The kind of asset an instrument tracks.
#[derive(Clone, Copy, Debug, PartialEq, Eq, Structural)]
pub enum InstrumentAssetClass {
    Crypto,
    Equity,
    Metal,
    Unknown,
}

/// Where an instrument record's metadata came from.
#[derive(Clone, Copy, Debug, PartialEq, Eq, Structural)]
pub enum InstrumentMetadataSource {
    OfficialEndpoint,
}

/// The listing status a row's `status` names, in any case.
pub open spec fn listing_status_of(raw: Seq<char>) -> InstrumentListingStatus {
    let l = lower(raw);
    if l == "online"@ {
        InstrumentListingStatus::Trading
    } else if l == "listed"@ {
        InstrumentListingStatus::PreLaunch
    } else if l == "limit_open"@ || l == "limit_close"@ || l == "restrictedapi"@ {
        InstrumentListingStatus::Suspended
    } else if l == "offline"@ {
        InstrumentListingStatus::Delisted
    } else {
        InstrumentListingStatus::Unknown
    }
}

pub fn listing_status(raw: &str) -> (r: InstrumentListingStatus)
    ensures
        r == listing_status_of(raw@),
{
    let l = to_lower(raw);
    let l = l.as_str();
    if str_eq(l, "online") {
        InstrumentListingStatus::Trading
    } else if str_eq(l, "listed") {
        InstrumentListingStatus::PreLaunch
    } else if str_eq(l, "limit_open") || str_eq(l, "limit_close") || str_eq(l, "restrictedapi") {
        InstrumentListingStatus::Suspended
    } else if str_eq(l, "offline") {
        InstrumentListingStatus::Delisted
    } else {
        InstrumentListingStatus::Unknown
    }
}

/// The asset class of a row: crypto unless the row is a real-world asset,
/// whose `symbolType` then names it.
pub open spec fn asset_class_of(is_rwa: bool, symbol_type: Seq<char>) -> InstrumentAssetClass {
    if !is_rwa {
        InstrumentAssetClass::Crypto
    } else if lower(symbol_type) == "stock"@ {
        InstrumentAssetClass::Equity
    } else if lower(symbol_type) == "metal"@ {
        InstrumentAssetClass::Metal
    } else {
        InstrumentAssetClass::Unknown
    }
}

pub fn asset_class(is_rwa: bool, symbol_type: &str) -> (r: InstrumentAssetClass)
    ensures
        r == asset_class_of(is_rwa, symbol_type@),
{
    if !is_rwa {
        return InstrumentAssetClass::Crypto;
    }
    let l = to_lower(symbol_type);
    if str_eq(l.as_str(), "stock") {
        InstrumentAssetClass::Equity
    } else if str_eq(l.as_str(), "metal") {
        InstrumentAssetClass::Metal
    } else {
        InstrumentAssetClass::Unknown
    }
}

pub open spec fn missing_field(field: Seq<char>) -> ErrorView {
    validation_error_view("bitget instrument missing "@ + field)
}

/// A YES/NO flag: `yes`, `true` or `1` is set; `no`, `false`, `0` or blank is
/// unset, in any case and surrounded by white space.
pub open spec fn yes_no_of(raw: Seq<char>, field: Seq<char>) -> Result<bool, ErrorView> {
    let l = lower(trim(raw));
    if l == "yes"@ || l == "true"@ || l == "1"@ {
        Ok(true)
    } else if l == "no"@ || l == "false"@ || l == "0"@ || l.len() == 0 {
        Ok(false)
    } else {
        Err(
            validation_error_view(
                "bitget instrument "@ + field + " must be YES/NO: "@ + debug_quoted(raw),
            ),
        )
    }
}

pub fn yes_no(raw: &str, field: &str) -> (r: Result<bool, ExchangeError>)
    ensures
        match r {
            Ok(b) => yes_no_of(raw@, field@) == Ok::<bool, ErrorView>(b),
            Err(e) => yes_no_of(raw@, field@) == Err::<bool, ErrorView>(e@),
        },
{
    let t = trimmed(raw);
    let l = to_lower(t.as_str());
    let l = l.as_str();
    if str_eq(l, "yes") || str_eq(l, "true") || str_eq(l, "1") {
        Ok(true)
    } else if str_eq(l, "no") || str_eq(l, "false") || str_eq(l, "0") || l.unicode_len() == 0 {
        Ok(false)
    } else {
        let mut m = String::new();
        push_str(&mut m, "bitget instrument ");
        push_str(&mut m, field);
        push_str(&mut m, " must be YES/NO: ");
        let q = debug_quote(raw);
        push_str(&mut m, q.as_str());
        assert(m@ =~= "bitget instrument "@ + field@ + " must be YES/NO: "@ + debug_quoted(raw@));
        Err(validation_error(m))
    }
}

/// The category a row's `category` names, in any case.
pub open spec fn category_of(raw: Seq<char>) -> Option<BitgetUtaCategory> {
    let u = upper(raw);
    if u == "USDT-FUTURES"@ {
        Some(BitgetUtaCategory::UsdtFutures)
    } else if u == "USDC-FUTURES"@ {
        Some(BitgetUtaCategory::UsdcFutures)
    } else if u == "COIN-FUTURES"@ {
        Some(BitgetUtaCategory::CoinFutures)
    } else if u == "SPOT"@ {
        Some(BitgetUtaCategory::Spot)
    } else {
        None
    }
}

pub open spec fn category_field(raw: Seq<char>, symbol: Seq<char>) -> Result<
    BitgetUtaCategory,
    ErrorView,
> {
    match category_of(raw) {
        Some(c) => Ok(c),
        None => Err(
            validation_error_view(
                "bitget contract "@ + symbol + " unsupported category "@ + raw,
            ),
        ),
    }
}

pub fn parse_category(raw: &str, symbol: &str) -> (r: Result<BitgetUtaCategory, ExchangeError>)
    ensures
        match r {
            Ok(c) => category_field(raw@, symbol@) == Ok::<BitgetUtaCategory, ErrorView>(c),
            Err(e) => category_field(raw@, symbol@) == Err::<BitgetUtaCategory, ErrorView>(e@),
        },
{
    let u = to_upper(raw);
    let u = u.as_str();
    if str_eq(u, "USDT-FUTURES") {
        Ok(BitgetUtaCategory::UsdtFutures)
    } else if str_eq(u, "USDC-FUTURES") {
        Ok(BitgetUtaCategory::UsdcFutures)
    } else if str_eq(u, "COIN-FUTURES") {
        Ok(BitgetUtaCategory::CoinFutures)
    } else if str_eq(u, "SPOT") {
        Ok(BitgetUtaCategory::Spot)
    } else {
        let mut m = String::new();
        push_str(&mut m, "bitget contract ");
        push_str(&mut m, symbol);
        push_str(&mut m, " unsupported category ");
        push_str(&mut m, raw);
        assert(m@ =~= "bitget contract "@ + symbol@ + " unsupported category "@ + raw@);
        Err(validation_error(m))
    }
}

/// A required text field: kept as sent, but not blank.
pub open spec fn non_empty_of(value: Seq<char>, field: Seq<char>) -> Result<Seq<char>, ErrorView> {
    if is_blank(value) {
        Err(missing_field(field))
    } else {
        Ok(value)
    }
}

fn missing(field: &str) -> (e: ExchangeError)
    ensures
        e@ == missing_field(field@),
{
    let mut m = String::new();
    push_str(&mut m, "bitget instrument missing ");
    push_str(&mut m, field);
    assert(m@ =~= "bitget instrument missing "@ + field@);
    validation_error(m)
}

pub fn non_empty(value: String, field: &str) -> (r: Result<String, ExchangeError>)
    ensures
        match r {
            Ok(v) => non_empty_of(value@, field@) == Ok::<Seq<char>, ErrorView>(v@),
            Err(e) => non_empty_of(value@, field@) == Err::<Seq<char>, ErrorView>(e@),
        },
{
    if blank(value.as_str()) {
        Err(missing(field))
    } else {
        Ok(value)
    }
}

/// The quote coin of a row, upper-cased; a USDT or USDC contract must quote
/// in its own coin.
pub open spec fn expected_quote_of(category: BitgetUtaCategory, raw: Seq<char>, symbol: Seq<
    char,
>) -> Result<Seq<char>, ErrorView> {
    if is_blank(raw) {
        Err(missing_field("quoteCoin"@))
    } else {
        let q = upper(raw);
        let expected: Option<Seq<char>> = match category {
            BitgetUtaCategory::UsdtFutures => Some("USDT"@),
            BitgetUtaCategory::UsdcFutures => Some("USDC"@),
            _ => None,
        };
        match expected {
            Some(x) => if q != x {
                Err(
                    validation_error_view(
                        "bitget contract "@ + symbol + " quoteCoin "@ + q + " does not match "@
                            + category_query(category),
                    ),
                )
            } else {
                Ok(q)
            },
            None => Ok(q),
        }
    }
}

pub fn expected_quote(category: BitgetUtaCategory, raw: &str, symbol: &str) -> (r: Result<
    String,
    ExchangeError,
>)
    ensures
        match r {
            Ok(q) => expected_quote_of(category, raw@, symbol@) == Ok::<Seq<char>, ErrorView>(q@),
            Err(e) => expected_quote_of(category, raw@, symbol@) == Err::<Seq<char>, ErrorView>(
                e@,
            ),
        },
{
    if blank(raw) {
        return Err(missing("quoteCoin"));
    }
    let q = to_upper(raw);
    let expected = match category {
        BitgetUtaCategory::UsdtFutures => Some("USDT"),
        BitgetUtaCategory::UsdcFutures => Some("USDC"),
        _ => None,
    };
    match expected {
        Some(x) => {
            if !str_eq(q.as_str(), x) {
                let mut m = String::new();
                push_str(&mut m, "bitget contract ");
                push_str(&mut m, symbol);
                push_str(&mut m, " quoteCoin ");
                push_str(&mut m, q.as_str());
                push_str(&mut m, " does not match ");
                push_str(&mut m, category.as_query());
                assert(m@ =~= "bitget contract "@ + symbol@ + " quoteCoin "@ + q@
                    + " does not match "@ + category_query(category));
                return Err(validation_error(m));
            }
            Ok(q)
        },
        None => Ok(q),
    }
}

// ---------------------------------------------------------------------------
// Numeric fields
// ---------------------------------------------------------------------------

/// The trimmed text of a value that reads as a finite number above zero.
pub open spec fn positive_text(value: Seq<char>) -> Option<Seq<char>> {
    let t = trim(value);
    if t.len() > 0 && (number_kind(t) matches Some(k) && reads_finite(k)) && reads_positive(
        finite_value_of(t),
    ) {
        Some(t)
    } else {
        None
    }
}

/// Reads a value that must be a finite number above zero, with its text.
fn read_positive(value: &str) -> (r: Option<(String, Decimal)>)
    ensures
        match r {
            Some((t, d)) => positive_text(value@) == Some(t@) && d@ == finite_value_of(t@)
                && decimal_wf(d@),
            None => positive_text(value@).is_none(),
        },
{
    let t = trimmed(value);
    if t.unicode_len() == 0 {
        return None;
    }
    match parse_number_text(t.as_str()) {
        Some(n) => {
            if is_finite_number(&n) {
                match n {
                    NumberText::Finite(d) => {
                        if is_positive_reading(&d) {
                            Some((t, d))
                        } else {
                            None
                        }
                    },
                    _ => None,
                }
            } else {
                None
            }
        },
        None => None,
    }
}

/// A required value above zero, as its trimmed text.
pub open spec fn positive_field_of(value: Seq<char>, field: Seq<char>) -> Result<
    Seq<char>,
    ErrorView,
> {
    match positive_text(value) {
        Some(t) => Ok(t),
        None => Err(
            validation_error_view(
                "bitget instrument "@ + field + " must be positive finite: "@ + debug_quoted(
                    value,
                ),
            ),
        ),
    }
}

pub fn positive_str(value: &str, field: &str) -> (r: Result<String, ExchangeError>)
    ensures
        match r {
            Ok(t) => positive_field_of(value@, field@) == Ok::<Seq<char>, ErrorView>(t@),
            Err(e) => positive_field_of(value@, field@) == Err::<Seq<char>, ErrorView>(e@),
        },
{
    match read_positive(value) {
        Some((t, _)) => Ok(t),
        None => {
            let mut m = String::new();
            push_str(&mut m, "bitget instrument ");
            push_str(&mut m, field);
            push_str(&mut m, " must be positive finite: ");
            let q = debug_quote(value);
            push_str(&mut m, q.as_str());
            assert(m@ =~= "bitget instrument "@ + field@ + " must be positive finite: "@
                + debug_quoted(value@));
            Err(validation_error(m))
        },
    }
}

/// An optional value above zero, as its trimmed text; anything else is
/// absent.
pub fn optional_positive_str(value: &str) -> (r: Option<String>)
    ensures
        match r {
            Some(t) => positive_text(value@) == Some(t@),
            None => positive_text(value@).is_none(),
        },
{
    match read_positive(value) {
        Some((t, _)) => Some(t),
        None => None,
    }
}

/// `10^-digits` written out: `1`, `0.1`, `0.01`, ...
pub open spec fn precision_text(digits: nat) -> Seq<char> {
    if digits == 0 {
        "1"@
    } else {
        "0."@ + Seq::new((digits - 1) as nat, |i: int| '0') + "1"@
    }
}

pub fn precision_step(digits: u32) -> (r: String)
    ensures
        r@ == precision_text(digits as nat),
{
    let mut out = String::new();
    if digits == 0 {
        push_str(&mut out, "1");
        assert(out@ =~= "1"@);
        return out;
    }
    push_str(&mut out, "0.");
    let mut i: u32 = 1;
    while i < digits
        invariant
            1 <= i <= digits,
            out@ == "0."@ + Seq::new((i - 1) as nat, |k: int| '0'),
        decreases digits - i,
    {
        push_char(&mut out, '0');
        assert(out@ =~= "0."@ + Seq::new(i as nat, |k: int| '0'));
        i = i + 1;
    }
    push_str(&mut out, "1");
    assert(out@ =~= "0."@ + Seq::new((digits - 1) as nat, |k: int| '0') + "1"@);
    out
}

/// A tick or step: the multiplier when it reads above zero, else `10^-p` for
/// a precision `p` of 0 to 18.
pub open spec fn multiplier_or_precision_of(multiplier: Seq<char>, precision: Seq<char>, field: Seq<
    char,
>) -> Result<Seq<char>, ErrorView> {
    match positive_text(multiplier) {
        Some(t) => Ok(t),
        None => match parse_int_text(trim(precision), true) {
            Some(v) => if i32::MIN <= v && v <= i32::MAX {
                if 0 <= v && v <= 18 {
                    Ok(precision_text(v as nat))
                } else {
                    Err(
                        validation_error_view(
                            "bitget instrument "@ + field + " precision out of range: "@
                                + int_text(v),
                        ),
                    )
                }
            } else {
                Err(precision_missing(multiplier, precision, field))
            },
            None => Err(precision_missing(multiplier, precision, field)),
        },
    }
}

pub open spec fn precision_missing(multiplier: Seq<char>, precision: Seq<char>, field: Seq<char>) -> ErrorView {
    validation_error_view(
        "bitget instrument "@ + field + " missing: "@ + debug_quoted(multiplier) + "/"@
            + debug_quoted(precision),
    )
}

pub fn multiplier_or_precision(multiplier: &str, precision: &str, field: &str) -> (r: Result<
    String,
    ExchangeError,
>)
    ensures
        match r {
            Ok(t) => multiplier_or_precision_of(multiplier@, precision@, field@) == Ok::<
                Seq<char>,
                ErrorView,
            >(t@),
            Err(e) => multiplier_or_precision_of(multiplier@, precision@, field@) == Err::<
                Seq<char>,
                ErrorView,
            >(e@),
        },
{
    if let Some((t, _)) = read_positive(multiplier) {
        return Ok(t);
    }
    let p = trimmed(precision);
    let parsed = parse_i64(p.as_str());
    let digits: i64 = match parsed {
        Some(v) => {
            if -2147483648 <= v && v <= 2147483647 {
                v
            } else {
                return Err(missing_precision(multiplier, precision, field));
            }
        },
        None => {
            return Err(missing_precision(multiplier, precision, field));
        },
    };
    if !(0 <= digits && digits <= 18) {
        let mut m = String::new();
        push_str(&mut m, "bitget instrument ");
        push_str(&mut m, field);
        push_str(&mut m, " precision out of range: ");
        push_int(&mut m, digits);
        assert(m@ =~= "bitget instrument "@ + field@ + " precision out of range: "@ + int_text(
            digits as int,
        ));
        return Err(validation_error(m));
    }
    Ok(precision_step(digits as u32))
}

fn missing_precision(multiplier: &str, precision: &str, field: &str) -> (e: ExchangeError)
    ensures
        e@ == precision_missing(multiplier@, precision@, field@),
{
    let mut m = String::new();
    push_str(&mut m, "bitget instrument ");
    push_str(&mut m, field);
    push_str(&mut m, " missing: ");
    let a = debug_quote(multiplier);
    push_str(&mut m, a.as_str());
    push_str(&mut m, "/");
    let b = debug_quote(precision);
    push_str(&mut m, b.as_str());
    assert(m@ =~= "bitget instrument "@ + field@ + " missing: "@ + debug_quoted(multiplier@) + "/"@
        + debug_quoted(precision@));
    validation_error(m)
}

/// The funding interval of a contract in milliseconds: its `fundInterval`
/// hours rounded to whole hours, halves away from zero. Spot has none, and
/// neither has a contract whose interval is missing, rounds to zero, or
/// does not fit in an `i64` of milliseconds.
pub open spec fn funding_interval_of(category: BitgetUtaCategory, raw: Seq<char>) -> Option<i64> {
    if category == BitgetUtaCategory::Spot {
        None
    } else {
        match positive_text(raw) {
            Some(t) => {
                let h = rounded_magnitude(finite_value_of(t));
                if 1 <= h && h <= MAX_FUNDING_HOURS {
                    Some((h * HOUR_MS) as i64)
                } else {
                    None
                }
            },
            None => None,
        }
    }
}

pub fn funding_interval_ms(category: BitgetUtaCategory, raw: &str) -> (r: Option<i64>)
    ensures
        r == funding_interval_of(category, raw@),
{
    if category == BitgetUtaCategory::Spot {
        return None;
    }
    match read_positive(raw) {
        Some((_, d)) => {
            match rounded_magnitude_capped(&d, MAX_FUNDING_HOURS) {
                Some(h) => {
                    if h == 0 {
                        None
                    } else {
                        let hours: i64 = h as i64;
                        assert(hours * 3600000 <= i64::MAX) by (nonlinear_arith)
                            requires
                                hours <= 2562047788015,
                        ;
                        assert(hours * 3600000 >= 0) by (nonlinear_arith)
                            requires
                                hours >= 0,
                        ;
                        Some(hours * HOUR_MS)
                    }
                },
                None => None,
            }
        },
        None => None,
    }
}

// ---------------------------------------------------------------------------
// Rows and rules
// ---------------------------------------------------------------------------

/// One row of the instrument list, each field as the venue sent it (absent
/// fields are empty).
#[derive(Debug, Default)]
pub struct BitgetInstrumentRow {
    pub symbol: String,
    pub category: String,
    pub base_coin: String,
    pub quote_coin: String,
    pub settle_coin: String,
    pub contract_type: String,
    pub status: String,
    pub symbol_type: String,
    pub is_rwa: String,
    pub is_reality: String,
    pub price_multiplier: String,
    pub quantity_multiplier: String,
    pub price_precision: String,
    pub quantity_precision: String,
    pub min_order_qty: String,
    pub min_order_amount: String,
    pub fund_interval: String,
}

pub ghost struct RowView {
    pub symbol: Seq<char>,
    pub category: Seq<char>,
    pub base_coin: Seq<char>,
    pub quote_coin: Seq<char>,
    pub settle_coin: Seq<char>,
    pub contract_type: Seq<char>,
    pub status: Seq<char>,
    pub symbol_type: Seq<char>,
    pub is_rwa: Seq<char>,
    pub is_reality: Seq<char>,
    pub price_multiplier: Seq<char>,
    pub quantity_multiplier: Seq<char>,
    pub price_precision: Seq<char>,
    pub quantity_precision: Seq<char>,
    pub min_order_qty: Seq<char>,
    pub min_order_amount: Seq<char>,
    pub fund_interval: Seq<char>,
}

impl View for BitgetInstrumentRow {
    type V = RowView;

    open spec fn view(&self) -> RowView {
        RowView {
            symbol: self.symbol@,
            category: self.category@,
            base_coin: self.base_coin@,
            quote_coin: self.quote_coin@,
            settle_coin: self.settle_coin@,
            contract_type: self.contract_type@,
            status: self.status@,
            symbol_type: self.symbol_type@,
            is_rwa: self.is_rwa@,
            is_reality: self.is_reality@,
            price_multiplier: self.price_multiplier@,
            quantity_multiplier: self.quantity_multiplier@,
            price_precision: self.price_precision@,
            quantity_precision: self.quantity_precision@,
            min_order_qty: self.min_order_qty@,
            min_order_amount: self.min_order_amount@,
            fund_interval: self.fund_interval@,
        }
    }
}

/// The sizing rule and identity of one listed instrument. Ticks, steps and
/// minimums are decimal text above zero.
#[derive(Debug)]
pub struct BitgetInstrumentRule {
    pub category: BitgetUtaCategory,
    pub symbol: String,
    pub base: String,
    pub quote: String,
    pub settle: String,
    pub price_tick: String,
    pub qty_step: String,
    pub min_qty: String,
    pub min_notional: Option<String>,
    pub funding_interval_ms: Option<i64>,
    pub status: String,
    pub asset_class: InstrumentAssetClass,
    pub execution_supported: bool,
}

pub ghost struct RuleView {
    pub category: BitgetUtaCategory,
    pub symbol: Seq<char>,
    pub base: Seq<char>,
    pub quote: Seq<char>,
    pub settle: Seq<char>,
    pub price_tick: Seq<char>,
    pub qty_step: Seq<char>,
    pub min_qty: Seq<char>,
    pub min_notional: Option<Seq<char>>,
    pub funding_interval_ms: Option<i64>,
    pub status: Seq<char>,
    pub asset_class: InstrumentAssetClass,
    pub execution_supported: bool,
}

pub open spec fn opt_view(o: Option<String>) -> Option<Seq<char>> {
    match o {
        Some(s) => Some(s@),
        None => None,
    }
}

impl View for BitgetInstrumentRule {
    type V = RuleView;

    open spec fn view(&self) -> RuleView {
        RuleView {
            category: self.category,
            symbol: self.symbol@,
            base: self.base@,
            quote: self.quote@,
            settle: self.settle@,
            price_tick: self.price_tick@,
            qty_step: self.qty_step@,
            min_qty: self.min_qty@,
            min_notional: opt_view(self.min_notional),
            funding_interval_ms: self.funding_interval_ms,
            status: self.status@,
            asset_class: self.asset_class,
            execution_supported: self.execution_supported,
        }
    }
}

pub open spec fn not_perpetual(symbol: Seq<char>, contract_type: Seq<char>) -> ErrorView {
    validation_error_view(
        "bitget contract "@ + symbol + " type "@ + contract_type + " is not a perpetual"@,
    )
}

/// The settlement coin: a spot pair settles in its quote; a contract in the
/// row's `settleCoin`, or, when that is blank, in its base (COIN) or quote.
pub open spec fn settle_of(category: BitgetUtaCategory, settle_coin: Seq<char>, base: Seq<char>, quote: Seq<char>) -> Seq<char> {
    if category == BitgetUtaCategory::Spot {
        quote
    } else if is_blank(settle_coin) {
        if category == BitgetUtaCategory::CoinFutures {
            base
        } else {
            quote
        }
    } else {
        upper(settle_coin)
    }
}

/// The sizing fields of a rule, read in the order the venue row is checked:
/// price tick, quantity step, minimum quantity.
pub open spec fn sizing_of(r: RowView) -> Result<(Seq<char>, Seq<char>, Seq<char>), ErrorView> {
    match multiplier_or_precision_of(
        r.price_multiplier,
        r.price_precision,
        "priceMultiplier/pricePrecision"@,
    ) {
        Err(e) => Err(e),
        Ok(tick) => match multiplier_or_precision_of(
            r.quantity_multiplier,
            r.quantity_precision,
            "quantityMultiplier/quantityPrecision"@,
        ) {
            Err(e) => Err(e),
            Ok(step) => match positive_field_of(r.min_order_qty, "minOrderQty"@) {
                Err(e) => Err(e),
                Ok(min_qty) => Ok((tick, step, min_qty)),
            },
        },
    }
}

/// The rule a row gives, or the first check it fails: symbol, category,
/// perpetual type (contracts only), base coin, quote coin, the `isRwa` and
/// `isReality` flags, then the sizing fields.
pub open spec fn rule_of(r: RowView) -> Result<RuleView, ErrorView> {
    if is_blank(r.symbol) {
        Err(missing_field("symbol"@))
    } else {
        let symbol = upper(r.symbol);
        match category_field(r.category, symbol) {
            Err(e) => Err(e),
            Ok(category) => if category != BitgetUtaCategory::Spot && !eq_ignore_case(
                r.contract_type,
                "perpetual"@,
            ) {
                Err(not_perpetual(symbol, r.contract_type))
            } else if is_blank(r.base_coin) {
                Err(missing_field("baseCoin"@))
            } else {
                let base = upper(r.base_coin);
                match expected_quote_of(category, r.quote_coin, symbol) {
                    Err(e) => Err(e),
                    Ok(quote) => match yes_no_of(r.is_rwa, "isRwa"@) {
                        Err(e) => Err(e),
                        Ok(is_rwa) => match yes_no_of(r.is_reality, "isReality"@) {
                            Err(e) => Err(e),
                            Ok(is_reality) => match sizing_of(r) {
                                Err(e) => Err(e),
                                Ok((tick, step, min_qty)) => Ok(
                                    RuleView {
                                        category,
                                        symbol,
                                        base,
                                        quote,
                                        settle: settle_of(category, r.settle_coin, base, quote),
                                        price_tick: tick,
                                        qty_step: step,
                                        min_qty,
                                        min_notional: positive_text(r.min_order_amount),
                                        funding_interval_ms: funding_interval_of(
                                            category,
                                            r.fund_interval,
                                        ),
                                        status: r.status,
                                        asset_class: asset_class_of(is_rwa, r.symbol_type),
                                        execution_supported: category
                                            != BitgetUtaCategory::CoinFutures && !is_reality,
                                    },
                                ),
                            },
                        },
                    },
                }
            },
        }
    }
}

fn read_sizing(row: &BitgetInstrumentRow) -> (r: Result<(String, String, String), ExchangeError>)
    ensures
        match r {
            Ok((a, b, c)) => sizing_of(row@) == Ok::<(Seq<char>, Seq<char>, Seq<char>), ErrorView>(
                (a@, b@, c@),
            ),
            Err(e) => sizing_of(row@) == Err::<(Seq<char>, Seq<char>, Seq<char>), ErrorView>(e@),
        },
{
    let tick = multiplier_or_precision(
        row.price_multiplier.as_str(),
        row.price_precision.as_str(),
        "priceMultiplier/pricePrecision",
    )?;
    let step = multiplier_or_precision(
        row.quantity_multiplier.as_str(),
        row.quantity_precision.as_str(),
        "quantityMultiplier/quantityPrecision",
    )?;
    let min_qty = positive_str(row.min_order_qty.as_str(), "minOrderQty")?;
    Ok((tick, step, min_qty))
}

fn read_rule(row: &BitgetInstrumentRow) -> (r: Result<BitgetInstrumentRule, ExchangeError>)
    ensures
        match r {
            Ok(rule) => rule_of(row@) == Ok::<RuleView, ErrorView>(rule@),
            Err(e) => rule_of(row@) == Err::<RuleView, ErrorView>(e@),
        },
{
    if blank(row.symbol.as_str()) {
        return Err(missing("symbol"));
    }
    let symbol = to_upper(row.symbol.as_str());
    let category = parse_category(row.category.as_str(), symbol.as_str())?;
    if category != BitgetUtaCategory::Spot && !eq_ignore_ascii_case(
        row.contract_type.as_str(),
        "perpetual",
    ) {
        let mut m = String::new();
        push_str(&mut m, "bitget contract ");
        push_str(&mut m, symbol.as_str());
        push_str(&mut m, " type ");
        push_str(&mut m, row.contract_type.as_str());
        push_str(&mut m, " is not a perpetual");
        assert(m@ =~= "bitget contract "@ + symbol@ + " type "@ + row.contract_type@
            + " is not a perpetual"@);
        return Err(validation_error(m));
    }
    if blank(row.base_coin.as_str()) {
        return Err(missing("baseCoin"));
    }
    let base = to_upper(row.base_coin.as_str());
    let quote = expected_quote(category, row.quote_coin.as_str(), symbol.as_str())?;
    let settle = if category == BitgetUtaCategory::Spot {
        quote.clone()
    } else if blank(row.settle_coin.as_str()) {
        if category == BitgetUtaCategory::CoinFutures {
            base.clone()
        } else {
            quote.clone()
        }
    } else {
        to_upper(row.settle_coin.as_str())
    };
    let is_rwa = yes_no(row.is_rwa.as_str(), "isRwa")?;
    let is_reality = yes_no(row.is_reality.as_str(), "isReality")?;
    let execution_supported = category != BitgetUtaCategory::CoinFutures && !is_reality;
    let funding = funding_interval_ms(category, row.fund_interval.as_str());
    let (price_tick, qty_step, min_qty) = read_sizing(row)?;
    let min_notional = optional_positive_str(row.min_order_amount.as_str());
    let rule = BitgetInstrumentRule {
        category,
        symbol,
        base,
        quote,
        settle,
        price_tick,
        qty_step,
        min_qty,
        min_notional,
        funding_interval_ms: funding,
        status: row.status.clone(),
        asset_class: asset_class(is_rwa, row.symbol_type.as_str()),
        execution_supported,
    };
    assert(opt_view(rule.min_notional) == positive_text(row.min_order_amount@));
    Ok(rule)
}

impl BitgetInstrumentRule {
    /// Reads one instrument row into its rule, or reports the first field it
    /// fails on.
    pub fn from_row(row: BitgetInstrumentRow) -> (r: Result<Self, ExchangeError>)
        ensures
            match r {
                Ok(rule) => rule_of(row@) == Ok::<RuleView, ErrorView>(rule@),
                Err(e) => rule_of(row@) == Err::<RuleView, ErrorView>(e@),
            },
    {
        read_rule(&row)
    }
}

// ---------------------------------------------------------------------------
// Specs and instrument records
// ---------------------------------------------------------------------------

/// What order sizing needs of an instrument.
#[derive(Debug)]
pub struct BitgetInstrumentSpec {
    pub category: BitgetUtaCategory,
    pub native_symbol: String,
    pub price_tick: String,
    pub qty_step: String,
    pub min_qty: String,
    pub min_notional: Option<String>,
    pub execution_supported: bool,
    pub listing_status: InstrumentListingStatus,
}

pub ghost struct SpecView {
    pub category: BitgetUtaCategory,
    pub native_symbol: Seq<char>,
    pub price_tick: Seq<char>,
    pub qty_step: Seq<char>,
    pub min_qty: Seq<char>,
    pub min_notional: Option<Seq<char>>,
    pub execution_supported: bool,
    pub listing_status: InstrumentListingStatus,
}

impl View for BitgetInstrumentSpec {
    type V = SpecView;

    open spec fn view(&self) -> SpecView {
        SpecView {
            category: self.category,
            native_symbol: self.native_symbol@,
            price_tick: self.price_tick@,
            qty_step: self.qty_step@,
            min_qty: self.min_qty@,
            min_notional: opt_view(self.min_notional),
            execution_supported: self.execution_supported,
            listing_status: self.listing_status,
        }
    }
}

pub open spec fn spec_of(rule: RuleView) -> SpecView {
    SpecView {
        category: rule.category,
        native_symbol: rule.symbol,
        price_tick: rule.price_tick,
        qty_step: rule.qty_step,
        min_qty: rule.min_qty,
        min_notional: rule.min_notional,
        execution_supported: rule.execution_supported,
        listing_status: listing_status_of(rule.status),
    }
}

pub fn clone_opt(o: &Option<String>) -> (r: Option<String>)
    ensures
        opt_view(r) == opt_view(*o),
{
    match o {
        Some(s) => Some(s.clone()),
        None => None,
    }
}

/// A venue-neutral record of one listed instrument.
#[derive(Debug)]
pub struct VenueInstrument {
    pub venue: String,
    pub native_symbol: String,
    pub canonical_symbol: String,
    pub display_symbol: String,
    pub asset_class: InstrumentAssetClass,
    pub product_type: Option<String>,
    pub quote_asset: Option<String>,
    pub settle_asset: Option<String>,
    pub margin_asset: Option<String>,
    pub contract_size: Option<String>,
    pub execution_supported: bool,
    pub price_tick: Option<String>,
    pub qty_step: Option<String>,
    pub min_qty: Option<String>,
    pub min_notional: Option<String>,
    pub listing_status: InstrumentListingStatus,
    pub funding_interval_ms: Option<i64>,
    pub source: InstrumentMetadataSource,
    pub source_url: Option<String>,
    pub checked_at_ms: i64,
    pub schema_version: Option<String>,
}

pub ghost struct VenueInstrumentView {
    pub venue: Seq<char>,
    pub native_symbol: Seq<char>,
    pub canonical_symbol: Seq<char>,
    pub display_symbol: Seq<char>,
    pub asset_class: InstrumentAssetClass,
    pub product_type: Option<Seq<char>>,
    pub quote_asset: Option<Seq<char>>,
    pub settle_asset: Option<Seq<char>>,
    pub margin_asset: Option<Seq<char>>,
    pub contract_size: Option<Seq<char>>,
    pub execution_supported: bool,
    pub price_tick: Option<Seq<char>>,
    pub qty_step: Option<Seq<char>>,
    pub min_qty: Option<Seq<char>>,
    pub min_notional: Option<Seq<char>>,
    pub listing_status: InstrumentListingStatus,
    pub funding_interval_ms: Option<i64>,
    pub source: InstrumentMetadataSource,
    pub source_url: Option<Seq<char>>,
    pub checked_at_ms: i64,
    pub schema_version: Option<Seq<char>>,
}

impl View for VenueInstrument {
    type V = VenueInstrumentView;

    open spec fn view(&self) -> VenueInstrumentView {
        VenueInstrumentView {
            venue: self.venue@,
            native_symbol: self.native_symbol@,
            canonical_symbol: self.canonical_symbol@,
            display_symbol: self.display_symbol@,
            asset_class: self.asset_class,
            product_type: opt_view(self.product_type),
            quote_asset: opt_view(self.quote_asset),
            settle_asset: opt_view(self.settle_asset),
            margin_asset: opt_view(self.margin_asset),
            contract_size: opt_view(self.contract_size),
            execution_supported: self.execution_supported,
            price_tick: opt_view(self.price_tick),
            qty_step: opt_view(self.qty_step),
            min_qty: opt_view(self.min_qty),
            min_notional: opt_view(self.min_notional),
            listing_status: self.listing_status,
            funding_interval_ms: self.funding_interval_ms,
            source: self.source,
            source_url: opt_view(self.source_url),
            checked_at_ms: self.checked_at_ms,
            schema_version: opt_view(self.schema_version),
        }
    }
}

/// The record a rule gives: the base is the canonical symbol, contracts
/// settle and margin in the settle coin, and every Bitget contract sizes in
/// base units (a contract size of one).
pub open spec fn venue_view(rule: RuleView, checked_at_ms: i64) -> VenueInstrumentView {
    let spot = rule.category == BitgetUtaCategory::Spot;
    VenueInstrumentView {
        venue: "bitget"@,
        native_symbol: rule.symbol,
        canonical_symbol: rule.base,
        display_symbol: rule.base + "-"@ + rule.quote + (if spot {
            " Spot"@
        } else {
            " Perp"@
        }),
        asset_class: rule.asset_class,
        product_type: Some(
            if spot {
                "spot"@
            } else {
                "perp"@
            },
        ),
        quote_asset: Some(rule.quote),
        settle_asset: if spot {
            None
        } else {
            Some(rule.settle)
        },
        margin_asset: if spot {
            None
        } else {
            Some(rule.settle)
        },
        contract_size: Some("1"@),
        execution_supported: rule.execution_supported,
        price_tick: Some(rule.price_tick),
        qty_step: Some(rule.qty_step),
        min_qty: Some(rule.min_qty),
        min_notional: rule.min_notional,
        listing_status: listing_status_of(rule.status),
        funding_interval_ms: rule.funding_interval_ms,
        source: InstrumentMetadataSource::OfficialEndpoint,
        source_url: Some(INSTRUMENT_PATH@ + "?category="@ + category_query(rule.category)),
        checked_at_ms,
        schema_version: Some(SCHEMA_VERSION@),
    }
}

impl BitgetInstrumentRule {
    /// The sizing spec of the rule.
    pub fn to_spec(&self) -> (r: BitgetInstrumentSpec)
        ensures
            r@ == spec_of(self@),
    {
        BitgetInstrumentSpec {
            category: self.category,
            native_symbol: self.symbol.clone(),
            price_tick: self.price_tick.clone(),
            qty_step: self.qty_step.clone(),
            min_qty: self.min_qty.clone(),
            min_notional: clone_opt(&self.min_notional),
            execution_supported: self.execution_supported,
            listing_status: listing_status(self.status.as_str()),
        }
    }

    /// The instrument record of the rule, checked at `checked_at_ms`.
    pub fn into_venue_instrument(self, checked_at_ms: i64) -> (r: VenueInstrument)
        ensures
            r@ == venue_view(self@, checked_at_ms),
    {
        let spot = self.category == BitgetUtaCategory::Spot;
        let mut source_url = String::new();
        push_str(&mut source_url, INSTRUMENT_PATH);
        push_str(&mut source_url, "?category=");
        push_str(&mut source_url, self.category.as_query());
        let mut display = self.base.clone();
        push_str(&mut display, "-");
        push_str(&mut display, self.quote.as_str());
        push_str(&mut display, if spot { " Spot" } else { " Perp" });
        let status = listing_status(self.status.as_str());
        let settle_asset = if spot {
            None
        } else {
            Some(self.settle.clone())
        };
        let margin_asset = if spot {
            None
        } else {
            Some(self.settle)
        };
        let r = VenueInstrument {
            venue: "bitget".to_owned(),
            native_symbol: self.symbol,
            canonical_symbol: self.base,
            display_symbol: display,
            asset_class: self.asset_class,
            product_type: Some(
                if spot {
                    "spot".to_owned()
                } else {
                    "perp".to_owned()
                },
            ),
            quote_asset: Some(self.quote),
            settle_asset,
            margin_asset,
            contract_size: Some("1".to_owned()),
            execution_supported: self.execution_supported,
            price_tick: Some(self.price_tick),
            qty_step: Some(self.qty_step),
            min_qty: Some(self.min_qty),
            min_notional: self.min_notional,
            listing_status: status,
            funding_interval_ms: self.funding_interval_ms,
            source: InstrumentMetadataSource::OfficialEndpoint,
            source_url: Some(source_url),
            checked_at_ms,
            schema_version: Some(SCHEMA_VERSION.to_owned()),
        };
        assert(r@.display_symbol =~= venue_view(self@, checked_at_ms).display_symbol);
        assert(r@.source_url == venue_view(self@, checked_at_ms).source_url);
        r
    }
}

/// The rules of the rows that read, in row order; rows that fail a check
/// are left out.
pub open spec fn accepted_rules(rows: Seq<RowView>) -> Seq<RuleView>
    decreases rows.len(),
{
    if rows.len() == 0 {
        Seq::empty()
    } else {
        let prev = accepted_rules(rows.drop_last());
        match rule_of(rows.last()) {
            Ok(rule) => prev.push(rule),
            Err(_) => prev,
        }
    }
}

pub open spec fn row_views(rows: Seq<BitgetInstrumentRow>) -> Seq<RowView> {
    rows.map_values(|r: BitgetInstrumentRow| r@)
}

/// The instrument records and sizing specs of the rows that read, both in
/// row order.
pub fn instruments_and_specs_from_rows(rows: Vec<BitgetInstrumentRow>, checked_at_ms: i64) -> (r: (
    Vec<VenueInstrument>,
    Vec<BitgetInstrumentSpec>,
))
    ensures
        r.0@.map_values(|i: VenueInstrument| i@) == accepted_rules(row_views(rows@)).map_values(
            |rule: RuleView| venue_view(rule, checked_at_ms),
        ),
        r.1@.map_values(|s: BitgetInstrumentSpec| s@) == accepted_rules(row_views(rows@)).map_values(
            |rule: RuleView| spec_of(rule),
        ),
{
    let mut instruments: Vec<VenueInstrument> = Vec::new();
    let mut specs: Vec<BitgetInstrumentSpec> = Vec::new();
    let n = rows.len();
    let mut i: usize = 0;
    assert(row_views(rows@).subrange(0, 0) =~= Seq::<RowView>::empty());
    while i < n
        invariant
            n == rows@.len(),
            i <= n,
            instruments@.map_values(|v: VenueInstrument| v@) == accepted_rules(
                row_views(rows@).subrange(0, i as int),
            ).map_values(|rule: RuleView| venue_view(rule, checked_at_ms)),
            specs@.map_values(|s: BitgetInstrumentSpec| s@) == accepted_rules(
                row_views(rows@).subrange(0, i as int),
            ).map_values(|rule: RuleView| spec_of(rule)),
        decreases n - i,
    {
        let ghost before = row_views(rows@).subrange(0, i as int);
        let ghost next = row_views(rows@).subrange(0, i + 1);
        proof {
            assert(next.drop_last() =~= before);
            assert(next.last() == rows@[i as int]@);
        }
        match read_rule(&rows[i]) {
            Ok(rule) => {
                let ghost rv = rule@;
                let spec = rule.to_spec();
                let inst = rule.into_venue_instrument(checked_at_ms);
                let ghost old_i = instruments@;
                let ghost old_s = specs@;
                instruments.push(inst);
                specs.push(spec);
                proof {
                    assert(accepted_rules(next) == accepted_rules(before).push(rv));
                    assert(instruments@.map_values(|v: VenueInstrument| v@) =~= old_i.map_values(
                        |v: VenueInstrument| v@,
                    ).push(venue_view(rv, checked_at_ms)));
                    assert(specs@.map_values(|s: BitgetInstrumentSpec| s@) =~= old_s.map_values(
                        |s: BitgetInstrumentSpec| s@,
                    ).push(spec_of(rv)));
                    assert(accepted_rules(next).map_values(
                        |rule: RuleView| venue_view(rule, checked_at_ms),
                    ) =~= accepted_rules(before).map_values(
                        |rule: RuleView| venue_view(rule, checked_at_ms),
                    ).push(venue_view(rv, checked_at_ms)));
                    assert(accepted_rules(next).map_values(|rule: RuleView| spec_of(rule))
                        =~= accepted_rules(before).map_values(|rule: RuleView| spec_of(rule)).push(
                        spec_of(rv),
                    ));
                }
            },
            Err(_) => {
                assert(accepted_rules(next) == accepted_rules(before));
            },
        }
        i = i + 1;
    }
    assert(row_views(rows@).subrange(0, n as int) =~= row_views(rows@));
    (instruments, specs)
}

/// The instrument records of the rows that read, in row order.
pub fn instruments_from_rows(rows: Vec<BitgetInstrumentRow>, checked_at_ms: i64) -> (r: Vec<
    VenueInstrument,
>)
    ensures
        r@.map_values(|i: VenueInstrument| i@) == accepted_rules(row_views(rows@)).map_values(
            |rule: RuleView| venue_view(rule, checked_at_ms),
        ),
{
    instruments_and_specs_from_rows(rows, checked_at_ms).0
}

// ---------------------------------------------------------------------------
// Laws
// ---------------------------------------------------------------------------

/// A row that reads is executable exactly when it is neither a COIN inverse
/// contract nor a Reality product: spot and linear products with every
/// constraint present can trade; COIN and Reality rows are observation-only.
pub proof fn only_coin_and_reality_rows_are_observation_only(r: RowView)
    ensures
        match rule_of(r) {
            Ok(rule) => rule.execution_supported <==> (rule.category
                != BitgetUtaCategory::CoinFutures && yes_no_of(r.is_reality, "isReality"@) == Ok::<
                bool,
                ErrorView,
            >(false)),
            Err(_) => true,
        },
{
}

/// The native symbol a request routes to carries its category's suffix:
/// `_CM` for COIN, `PERP` for USDC and `USDT` for USDT contracts; only a
/// request that normalises to nothing routes nowhere.
pub proof fn native_identity_carries_its_category_suffix(s: Seq<char>)
    ensures
        match native_identity_of(s) {
            Some((c, n)) => match c {
                BitgetUtaCategory::CoinFutures => ends_with_seq(n, "_CM"@),
                BitgetUtaCategory::UsdcFutures => ends_with_seq(n, "PERP"@),
                BitgetUtaCategory::UsdtFutures => ends_with_seq(n, "USDT"@),
                BitgetUtaCategory::Spot => false,
            },
            None => normalized_request(s).len() == 0,
        },
{
    reveal_strlit("PERP");
    reveal_strlit("USDT");
    reveal_strlit("USDC");
    let n = normalized_request(s);
    if n.len() > 0 && !ends_with_seq(n, "_CM"@) && !ends_with_seq(n, "PERP"@) {
        if ends_with_seq(n, "USDC"@) {
            let m = n.subrange(0, n.len() - 4) + "PERP"@;
            assert(m.subrange(m.len() - 4, m.len() as int) =~= "PERP"@);
        } else if !ends_with_seq(n, "USDT"@) {
            let m = n + "USDT"@;
            assert(m.subrange(m.len() - 4, m.len() as int) =~= "USDT"@);
        }
    }
}

proof fn lemma_separators_removed(x: Seq<char>)
    ensures
        forall|i: int|
            0 <= i < without_pair_separators(x).len() ==> !is_pair_separator(
                #[trigger] without_pair_separators(x)[i],
            ),
    decreases x.len(),
{
    if x.len() > 0 {
        lemma_separators_removed(x.drop_last());
        let p = without_pair_separators(x.drop_last());
        if !is_pair_separator(x.last()) {
            assert forall|i: int| 0 <= i < p.push(x.last()).len() implies !is_pair_separator(
                #[trigger] p.push(x.last())[i],
            ) by {
                if i < p.len() {
                    assert(p.push(x.last())[i] == p[i]);
                }
            }
        }
    }
}

proof fn lemma_no_separators_kept(x: Seq<char>)
    requires
        forall|i: int| 0 <= i < x.len() ==> !is_pair_separator(#[trigger] x[i]),
    ensures
        without_pair_separators(x) == x,
    decreases x.len(),
{
    if x.len() > 0 {
        assert(!is_pair_separator(x[x.len() - 1]));
        lemma_no_separators_kept(x.drop_last());
        assert(x.drop_last().push(x.last()) =~= x);
    }
}

/// Routing a request: it routes nowhere exactly when it normalises to
/// nothing; routing its normal form again gives the same instrument whenever
/// that normal form has no white space at its ends (it can, when removing a
/// separator bares a space, as in `"/ a"`); and the native symbol carries
/// its category's suffix.
pub proof fn native_identity_routes_its_normal_form(s: Seq<char>)
    ensures
        native_identity_of(s) is None <==> normalized_request(s).len() == 0,
        trim(normalized_request(s)) == normalized_request(s) ==> normalized_request(
            normalized_request(s),
        ) == normalized_request(s) && native_identity_of(normalized_request(s))
            == native_identity_of(s),
        match native_identity_of(s) {
            Some((c, n)) => match c {
                BitgetUtaCategory::CoinFutures => ends_with_seq(n, "_CM"@),
                BitgetUtaCategory::UsdcFutures => ends_with_seq(n, "PERP"@),
                BitgetUtaCategory::UsdtFutures => ends_with_seq(n, "USDT"@),
                BitgetUtaCategory::Spot => false,
            },
            None => true,
        },
{
    native_identity_carries_its_category_suffix(s);
    if trim(normalized_request(s)) == normalized_request(s) {
        let w = without_pair_separators(trim(s));
        let n = normalized_request(s);
        lemma_separators_removed(trim(s));
        assert forall|i: int| 0 <= i < n.len() implies !is_pair_separator(#[trigger] n[i]) by {
            assert(n[i] == upper_char(w[i]));
            assert(!is_pair_separator(w[i]));
        }
        lemma_no_separators_kept(n);
        lemma_upper_idempotent(w);
    }
}

/// Each Bitget instrument status word names one listing status, in any
/// case: only `online` is trading, only `listed` is pre-launch, `limit_open`,
/// `limit_close` and `restrictedapi` are suspended, only `offline` is
/// delisted, and every other word is unknown.
pub proof fn listing_words_name_their_status(raw: Seq<char>)
    ensures
        listing_status_of(raw) == InstrumentListingStatus::Trading <==> lower(raw) == "online"@,
        listing_status_of(raw) == InstrumentListingStatus::PreLaunch <==> lower(raw) == "listed"@,
        listing_status_of(raw) == InstrumentListingStatus::Suspended <==> (lower(raw)
            == "limit_open"@ || lower(raw) == "limit_close"@ || lower(raw) == "restrictedapi"@),
        listing_status_of(raw) == InstrumentListingStatus::Delisted <==> lower(raw) == "offline"@,
        listing_status_of(raw) == InstrumentListingStatus::Unknown <==> !(lower(raw) == "online"@
            || lower(raw) == "listed"@ || lower(raw) == "limit_open"@ || lower(raw)
            == "limit_close"@ || lower(raw) == "restrictedapi"@ || lower(raw) == "offline"@),
{
    reveal_strlit("online");
    reveal_strlit("listed");
    reveal_strlit("limit_open");
    reveal_strlit("limit_close");
    reveal_strlit("restrictedapi");
    reveal_strlit("offline");
    assert("online"@.len() == 6);
    assert("listed"@.len() == 6);
    assert("online"@[0] != "listed"@[0]);
    assert("limit_open"@.len() == 10);
    assert("limit_close"@.len() == 11);
    assert("restrictedapi"@.len() == 13);
    assert("offline"@.len() == 7);
}

/// The sizing spec and the instrument record of a row report the listing
/// status the row's status word names: trading only for an `online` row,

/// Each category word names its own category, in any case: the category
/// whose REST query value it is; every other word names none.
pub proof fn category_words_name_their_category(raw: Seq<char>, c: BitgetUtaCategory)
    ensures
        category_of(raw) == Some(c) <==> upper(raw) == category_query(c),
        category_of(raw) is Some <==> (upper(raw) == "USDT-FUTURES"@ || upper(raw)
            == "USDC-FUTURES"@ || upper(raw) == "COIN-FUTURES"@ || upper(raw) == "SPOT"@),
{
    reveal_strlit("USDT-FUTURES");
    reveal_strlit("USDC-FUTURES");
    reveal_strlit("COIN-FUTURES");
    reveal_strlit("SPOT");
    assert("USDT-FUTURES"@[3] != "USDC-FUTURES"@[3]);
    assert("USDT-FUTURES"@[0] != "COIN-FUTURES"@[0]);
    assert("USDC-FUTURES"@[0] != "COIN-FUTURES"@[0]);
    assert("USDT-FUTURES"@.len() != "SPOT"@.len());
    assert("COIN-FUTURES"@.len() != "SPOT"@.len());
}

/// A row that is no real-world asset is crypto; a real-world asset is an
/// equity when its `symbolType` is `stock`, a metal when it is `metal` (in
/// any case), and unknown otherwise.
pub proof fn asset_words_name_their_class(is_rwa: bool, symbol_type: Seq<char>)
    ensures
        asset_class_of(is_rwa, symbol_type) == InstrumentAssetClass::Crypto <==> !is_rwa,
        asset_class_of(is_rwa, symbol_type) == InstrumentAssetClass::Equity <==> (is_rwa && lower(
            symbol_type,
        ) == "stock"@),
        asset_class_of(is_rwa, symbol_type) == InstrumentAssetClass::Metal <==> (is_rwa && lower(
            symbol_type,
        ) == "metal"@),
        asset_class_of(is_rwa, symbol_type) == InstrumentAssetClass::Unknown <==> (is_rwa && lower(
            symbol_type,
        ) != "stock"@ && lower(symbol_type) != "metal"@),
{
    reveal_strlit("stock");
    reveal_strlit("metal");
    assert("stock"@[0] != "metal"@[0]);
}

/// A YES/NO flag is set exactly for `yes`, `true` or `1`, unset exactly for
/// `no`, `false`, `0` or a blank value (in any case, around white space),
/// and refused otherwise.
pub proof fn flag_words_name_their_value(raw: Seq<char>, field: Seq<char>)
    ensures
        yes_no_of(raw, field) == Ok::<bool, ErrorView>(true) <==> (lower(trim(raw)) == "yes"@
            || lower(trim(raw)) == "true"@ || lower(trim(raw)) == "1"@),
        yes_no_of(raw, field) == Ok::<bool, ErrorView>(false) <==> (lower(trim(raw)) == "no"@
            || lower(trim(raw)) == "false"@ || lower(trim(raw)) == "0"@ || lower(trim(raw)).len()
            == 0),
{
    reveal_strlit("yes");
    reveal_strlit("true");
    reveal_strlit("1");
    reveal_strlit("no");
    reveal_strlit("false");
    reveal_strlit("0");
    assert("yes"@.len() == 3);
    assert("true"@.len() == 4);
    assert("1"@.len() == 1);
    assert("no"@.len() == 2);
    assert("false"@.len() == 5);
    assert("0"@.len() == 1);
    assert("1"@[0] != "0"@[0]);
}
/// pre-launch exactly for a `listed` row.
pub proof fn instruments_report_their_row_listing(r: RowView, checked_at_ms: i64)
    ensures
        rule_of(r) matches Ok(rule) ==> {
            &&& (spec_of(rule).listing_status == InstrumentListingStatus::Trading <==> lower(r.status)
                == "online"@)
            &&& (venue_view(rule, checked_at_ms).listing_status == InstrumentListingStatus::Trading
                <==> lower(r.status) == "online"@)
            &&& (spec_of(rule).listing_status == InstrumentListingStatus::PreLaunch <==> lower(
                r.status,
            ) == "listed"@)
            &&& (venue_view(rule, checked_at_ms).listing_status
                == InstrumentListingStatus::PreLaunch <==> lower(r.status) == "listed"@)
        },
{
    listing_words_name_their_status(r.status);
}

/// The instrument records and the sizing specs built from the same rows
/// describe the same instruments, pairwise: native symbol, category of
/// sizing, execution flag and listing status agree.
pub proof fn instruments_and_specs_agree(rows: Seq<RowView>, checked_at_ms: i64)
    ensures
        forall|i: int|
            0 <= i < accepted_rules(rows).len() ==> {
                let v = #[trigger] venue_view(accepted_rules(rows)[i], checked_at_ms);
                let sp = spec_of(accepted_rules(rows)[i]);
                &&& v.native_symbol == sp.native_symbol
                &&& v.execution_supported == sp.execution_supported
                &&& v.listing_status == sp.listing_status
                &&& v.price_tick == Some(sp.price_tick)
                &&& v.qty_step == Some(sp.qty_step)
                &&& v.min_qty == Some(sp.min_qty)
                &&& v.min_notional == sp.min_notional
            },
{
}

} // verus!
