//! Bitget V3 / UTA private WebSocket events: account, order, position and
//! fill frames, checked field by field.
//!
//! Every required value must be present and well formed; an unknown enum
//! value fails the frame rather than being guessed. Amounts are kept as the
//! trimmed decimal text the venue sent, once it reads as a finite number.

use vstd::prelude::*;
use crate::binance_ws_user::finite_value_of;
use crate::clock::{chrono_millis_representable, millis_in_chrono_range};
use crate::decimal::{
    is_finite_number, is_positive_reading, number_kind, parse_number_text, reads_finite,
    reads_positive, NumberText,
};
use crate::error::{ErrorView, ExchangeError};
use crate::bitget_uta_ws_user::{is_heartbeat_pong, is_pong};
use crate::json::{
    json_document, parse_json,
    decode_text_in, field_in, get_field_in, is_struct_shaped, list_or_default, opt, str_views,
    struct_shaped, text_or_default, JsonNumber, JsonValue,
};
use crate::json_out::{push_quoted, quoted};
use crate::orders::{
    live_state, live_state_of, order_info_view, text_of, LiveOrderState, OrderInfo, OrderInfoView,
    OrderSide, OrderStatus, OrderType,
};
use crate::symbols::{client_id_of, client_order_id_from_str, strip_common_suffixes, strip_quote};
use crate::text::{
    blank, eq_ignore_ascii_case, eq_ignore_case, i64_error_message, nat_text, push_nat, i64_error_text, int_text, lower,
    parse_i64, parse_i64_text, push_int, push_str, str_eq, to_lower, to_upper, trim, trimmed,
    upper,
};

verus! {

// ---------------------------------------------------------------------------
// Field readers
// ---------------------------------------------------------------------------

pub open spec fn ws_error(message: Seq<char>) -> ErrorView {
    ErrorView::Parse("bitget uta user ws "@ + message)
}

/// A required text field, trimmed.
pub open spec fn text_field(raw: Seq<char>, field: Seq<char>) -> Result<Seq<char>, ErrorView> {
    if trim(raw).len() == 0 {
        Err(ws_error("missing field "@ + field))
    } else {
        Ok(trim(raw))
    }
}

pub fn required_text(raw: &str, field: &str) -> (r: Result<String, ExchangeError>)
    ensures
        match r {
            Ok(t) => text_field(raw@, field@) == Ok::<Seq<char>, ErrorView>(t@),
            Err(e) => text_field(raw@, field@) == Err::<Seq<char>, ErrorView>(e@),
        },
{
    let t = trimmed(raw);
    if t.unicode_len() == 0 {
        return Err(ws_error_text(msg2("missing field ", field)));
    }
    Ok(t)
}

/// The trimmed text of a value, or nothing when it is blank.
pub open spec fn non_empty_text(raw: Seq<char>) -> Option<Seq<char>> {
    if trim(raw).len() == 0 {
        None
    } else {
        Some(trim(raw))
    }
}

pub fn non_empty_string(raw: &str) -> (r: Option<String>)
    ensures
        match r {
            Some(t) => non_empty_text(raw@) == Some(t@),
            None => non_empty_text(raw@).is_none(),
        },
{
    let t = trimmed(raw);
    if t.unicode_len() == 0 {
        None
    } else {
        Some(t)
    }
}

/// A numeric field: blank reads as zero; anything else must read as a
/// finite number, kept as its trimmed text.
pub open spec fn number_field(raw: Seq<char>, field: Seq<char>) -> Result<Seq<char>, ErrorView> {
    let t = trim(raw);
    if t.len() == 0 {
        Ok("0"@)
    } else {
        match number_kind(t) {
            None => Err(
                ws_error("numeric field "@ + field + ": invalid float literal; value="@ + raw),
            ),
            Some(k) => if reads_finite(k) {
                Ok(t)
            } else {
                Err(ws_error("non-finite field "@ + field + ": value="@ + raw))
            },
        }
    }
}

fn msg3(a: &str, b: &str, c: &str) -> (r: String)
    ensures
        r@ == a@ + b@ + c@,
{
    let mut m = String::new();
    push_str(&mut m, a);
    push_str(&mut m, b);
    push_str(&mut m, c);
    assert(m@ =~= a@ + b@ + c@);
    m
}

fn msg2(a: &str, b: &str) -> (r: String)
    ensures
        r@ == a@ + b@,
{
    let mut m = String::new();
    push_str(&mut m, a);
    push_str(&mut m, b);
    assert(m@ =~= a@ + b@);
    m
}

fn ws_error_text(message: String) -> (e: ExchangeError)
    ensures
        e@ == ws_error(message@),
{
    let mut m = String::new();
    push_str(&mut m, "bitget uta user ws ");
    push_str(&mut m, message.as_str());
    ExchangeError::Parse(m)
}

pub fn parse_number(raw: &str, field: &str) -> (r: Result<String, ExchangeError>)
    ensures
        match r {
            Ok(t) => number_field(raw@, field@) == Ok::<Seq<char>, ErrorView>(t@),
            Err(e) => number_field(raw@, field@) == Err::<Seq<char>, ErrorView>(e@),
        },
{
    let t = trimmed(raw);
    if t.unicode_len() == 0 {
        return Ok("0".to_owned());
    }
    match parse_number_text(t.as_str()) {
        None => {
            let a = msg3("numeric field ", field, ": invalid float literal; value=");
            Err(ws_error_text(msg2(a.as_str(), raw)))
        },
        Some(n) => {
            if is_finite_number(&n) {
                Ok(t)
            } else {
                let a = msg3("non-finite field ", field, ": value=");
                Err(ws_error_text(msg2(a.as_str(), raw)))
            }
        },
    }
}

/// A numeric field that must not be blank.
pub open spec fn required_number_field(raw: Seq<char>, field: Seq<char>) -> Result<
    Seq<char>,
    ErrorView,
> {
    if trim(raw).len() == 0 {
        Err(ws_error("missing numeric field "@ + field))
    } else {
        number_field(raw, field)
    }
}

pub fn parse_required_number(raw: &str, field: &str) -> (r: Result<String, ExchangeError>)
    ensures
        match r {
            Ok(t) => required_number_field(raw@, field@) == Ok::<Seq<char>, ErrorView>(t@),
            Err(e) => required_number_field(raw@, field@) == Err::<Seq<char>, ErrorView>(e@),
        },
{
    if blank_trimmed(raw) {
        return Err(ws_error_text(msg2("missing numeric field ", field)));
    }
    parse_number(raw, field)
}

fn blank_trimmed(raw: &str) -> (r: bool)
    ensures
        r == (trim(raw@).len() == 0),
{
    let t = trimmed(raw);
    t.unicode_len() == 0
}

/// A numeric field that must read above zero.
pub open spec fn positive_number_field(raw: Seq<char>, field: Seq<char>) -> Result<
    Seq<char>,
    ErrorView,
> {
    let non_positive = ws_error("non-positive field "@ + field + ": value="@ + raw);
    if trim(raw).len() == 0 {
        Err(non_positive)
    } else {
        match number_field(raw, field) {
            Ok(t) => if reads_positive(finite_value_of(t)) {
                Ok(t)
            } else {
                Err(non_positive)
            },
            Err(e) => Err(e),
        }
    }
}

/// Reads a trimmed numeric text that is known to be finite.
fn read_finite(t: &str) -> (r: Option<crate::decimal::Decimal>)
    requires
        t@.len() > 0,
        number_kind(t@) matches Some(k) && reads_finite(k),
    ensures
        match r {
            Some(d) => d@ == finite_value_of(t@) && crate::decimal::decimal_wf(d@),
            None => false,
        },
{
    match parse_number_text(t) {
        Some(NumberText::Finite(d)) => Some(d),
        _ => None,
    }
}

fn non_positive(raw: &str, field: &str) -> (e: ExchangeError)
    ensures
        e@ == ws_error("non-positive field "@ + field@ + ": value="@ + raw@),
{
    let a = msg3("non-positive field ", field, ": value=");
    let e = ws_error_text(msg2(a.as_str(), raw));
    assert(("non-positive field "@ + field@ + ": value="@) + raw@ =~= "non-positive field "@
        + field@ + ": value="@ + raw@);
    e
}

pub fn parse_positive_number(raw: &str, field: &str) -> (r: Result<String, ExchangeError>)
    ensures
        match r {
            Ok(t) => positive_number_field(raw@, field@) == Ok::<Seq<char>, ErrorView>(t@),
            Err(e) => positive_number_field(raw@, field@) == Err::<Seq<char>, ErrorView>(e@),
        },
{
    if blank_trimmed(raw) {
        return Err(non_positive(raw, field));
    }
    let t = parse_number(raw, field)?;
    match read_finite(t.as_str()) {
        Some(d) => {
            if is_positive_reading(&d) {
                Ok(t)
            } else {
                Err(non_positive(raw, field))
            }
        },
        None => Err(non_positive(raw, field)),
    }
}

/// An optional value above zero: blank or not above zero is absent.
pub open spec fn positive_option_field(raw: Seq<char>, field: Seq<char>) -> Result<
    Option<Seq<char>>,
    ErrorView,
> {
    if trim(raw).len() == 0 {
        Ok(None)
    } else {
        match number_field(raw, field) {
            Ok(t) => if reads_positive(finite_value_of(t)) {
                Ok(Some(t))
            } else {
                Ok(None)
            },
            Err(e) => Err(e),
        }
    }
}

pub fn parse_positive_option(raw: &str, field: &str) -> (r: Result<Option<String>, ExchangeError>)
    ensures
        match r {
            Ok(Some(t)) => positive_option_field(raw@, field@) == Ok::<
                Option<Seq<char>>,
                ErrorView,
            >(Some(t@)),
            Ok(None) => positive_option_field(raw@, field@) == Ok::<Option<Seq<char>>, ErrorView>(
                None,
            ),
            Err(e) => positive_option_field(raw@, field@) == Err::<Option<Seq<char>>, ErrorView>(
                e@,
            ),
        },
{
    if blank_trimmed(raw) {
        return Ok(None);
    }
    let t = parse_number(raw, field)?;
    match read_finite(t.as_str()) {
        Some(d) => {
            if is_positive_reading(&d) {
                Ok(Some(t))
            } else {
                Ok(None)
            }
        },
        None => Ok(None),
    }
}

/// A required integer field.
pub open spec fn i64_field(raw: Seq<char>, field: Seq<char>) -> Result<i64, ErrorView> {
    match parse_i64_text(trim(raw)) {
        Some(n) => Ok(n),
        None => Err(
            ws_error(
                "integer field "@ + field + ": "@ + i64_error_text(trim(raw)) + "; value="@ + raw,
            ),
        ),
    }
}

pub fn parse_required_i64(raw: &str, field: &str) -> (r: Result<i64, ExchangeError>)
    ensures
        match r {
            Ok(n) => i64_field(raw@, field@) == Ok::<i64, ErrorView>(n),
            Err(e) => i64_field(raw@, field@) == Err::<i64, ErrorView>(e@),
        },
{
    let t = trimmed(raw);
    match parse_i64(t.as_str()) {
        Some(n) => Ok(n),
        None => {
            let why = i64_error_message(t.as_str());
            let a = msg3("integer field ", field, ": ");
            let b = msg3(a.as_str(), why.as_str(), "; value=");
            Err(ws_error_text(msg2(b.as_str(), raw)))
        },
    }
}

/// A UTC event time in milliseconds that a calendar time can hold.
pub open spec fn event_time_of(ms: i64) -> Result<i64, ErrorView> {
    if millis_in_chrono_range(ms) {
        Ok(ms)
    } else {
        Err(ws_error("invalid timestamp: "@ + int_text(ms as int)))
    }
}

pub fn event_time(ms: i64) -> (r: Result<i64, ExchangeError>)
    ensures
        match r {
            Ok(t) => event_time_of(ms) == Ok::<i64, ErrorView>(t),
            Err(e) => event_time_of(ms) == Err::<i64, ErrorView>(e@),
        },
{
    if chrono_millis_representable(ms) {
        Ok(ms)
    } else {
        let mut m = String::new();
        push_str(&mut m, "invalid timestamp: ");
        push_int(&mut m, ms);
        Err(ws_error_text(m))
    }
}

// ---------------------------------------------------------------------------
// Enumerated fields
// ---------------------------------------------------------------------------

/// A product category, upper-cased.
pub open spec fn known_category_of(raw: Seq<char>, field: Seq<char>) -> Result<Seq<char>, ErrorView> {
    match text_field(raw, field) {
        Err(e) => Err(e),
        Ok(t) => {
            let u = upper(t);
            if u == "SPOT"@ || u == "MARGIN"@ || u == "USDT-FUTURES"@ || u == "USDC-FUTURES"@ || u
                == "COIN-FUTURES"@ {
                Ok(u)
            } else {
                Err(ws_error("unknown "@ + field + ": "@ + raw))
            }
        },
    }
}

pub fn known_category(raw: &str, field: &str) -> (r: Result<String, ExchangeError>)
    ensures
        match r {
            Ok(t) => known_category_of(raw@, field@) == Ok::<Seq<char>, ErrorView>(t@),
            Err(e) => known_category_of(raw@, field@) == Err::<Seq<char>, ErrorView>(e@),
        },
{
    let t = required_text(raw, field)?;
    let u = to_upper(t.as_str());
    let v = u.as_str();
    if str_eq(v, "SPOT") || str_eq(v, "MARGIN") || str_eq(v, "USDT-FUTURES") || str_eq(
        v,
        "USDC-FUTURES",
    ) || str_eq(v, "COIN-FUTURES") {
        Ok(u)
    } else {
        let a = msg3("unknown ", field, ": ");
        Err(ws_error_text(msg2(a.as_str(), raw)))
    }
}

/// A lower-cased value that must be one of `allowed`; blank is allowed (as
/// empty) when `optional`.
pub open spec fn known_value_of(raw: Seq<char>, allowed: Seq<Seq<char>>, optional: bool, what: Seq<char>) -> Result<
    Seq<char>,
    ErrorView,
> {
    let l = lower(raw);
    if allowed.contains(l) {
        Ok(l)
    } else if l.len() == 0 && optional {
        Ok(Seq::empty())
    } else {
        Err(ws_error("unknown "@ + what + ": "@ + raw))
    }
}

fn known_value(raw: &str, allowed: &[&str], optional: bool, what: &str) -> (r: Result<
    String,
    ExchangeError,
>)
    ensures
        match r {
            Ok(t) => known_value_of(raw@, crate::json::str_views(allowed@), optional, what@) == Ok::<
                Seq<char>,
                ErrorView,
            >(t@),
            Err(e) => known_value_of(raw@, crate::json::str_views(allowed@), optional, what@)
                == Err::<Seq<char>, ErrorView>(e@),
        },
{
    let l = to_lower(raw);
    if crate::json::key_in(l.as_str(), allowed) {
        Ok(l)
    } else if l.unicode_len() == 0 && optional {
        Ok(String::new())
    } else {
        let a = msg3("unknown ", what, ": ");
        Err(ws_error_text(msg2(a.as_str(), raw)))
    }
}

pub open spec fn sides() -> Seq<Seq<char>> {
    seq!["buy"@, "sell"@]
}

pub open spec fn hold_modes() -> Seq<Seq<char>> {
    seq!["one_way_mode"@, "hedge_mode"@]
}

pub open spec fn hold_sides() -> Seq<Seq<char>> {
    seq!["long"@, "short"@]
}

pub open spec fn trade_sides() -> Seq<Seq<char>> {
    seq!["open"@, "close"@]
}

pub open spec fn margin_modes() -> Seq<Seq<char>> {
    seq!["crossed"@, "isolated"@, "cross"@]
}

/// `opening` and `ended` are the V3 values; the others are earlier contract
/// states that a migrating account can still replay.
pub open spec fn position_statuses() -> Seq<Seq<char>> {
    seq!["opening"@, "ended"@, "normal"@, "liquidation"@, "adl"@]
}

pub fn known_side(raw: &str, field: &str) -> (r: Result<String, ExchangeError>)
    ensures
        match r {
            Ok(t) => known_value_of(raw@, sides(), false, field@) == Ok::<Seq<char>, ErrorView>(
                t@,
            ),
            Err(e) => known_value_of(raw@, sides(), false, field@) == Err::<Seq<char>, ErrorView>(
                e@,
            ),
        },
{
    let allowed = ["buy", "sell"];
    assert(crate::json::str_views(allowed@) =~= sides());
    known_value(raw, &allowed, false, field)
}

pub fn known_hold_mode(raw: &str, optional: bool) -> (r: Result<String, ExchangeError>)
    ensures
        match r {
            Ok(t) => known_value_of(raw@, hold_modes(), optional, "holdMode"@) == Ok::<
                Seq<char>,
                ErrorView,
            >(t@),
            Err(e) => known_value_of(raw@, hold_modes(), optional, "holdMode"@) == Err::<
                Seq<char>,
                ErrorView,
            >(e@),
        },
{
    let allowed = ["one_way_mode", "hedge_mode"];
    assert(crate::json::str_views(allowed@) =~= hold_modes());
    known_value(raw, &allowed, optional, "holdMode")
}

pub fn known_hold_side(raw: &str, optional: bool) -> (r: Result<String, ExchangeError>)
    ensures
        match r {
            Ok(t) => known_value_of(raw@, hold_sides(), optional, "holdSide/posSide"@) == Ok::<
                Seq<char>,
                ErrorView,
            >(t@),
            Err(e) => known_value_of(raw@, hold_sides(), optional, "holdSide/posSide"@) == Err::<
                Seq<char>,
                ErrorView,
            >(e@),
        },
{
    let allowed = ["long", "short"];
    assert(crate::json::str_views(allowed@) =~= hold_sides());
    known_value(raw, &allowed, optional, "holdSide/posSide")
}

pub fn known_trade_side(raw: &str, optional: bool) -> (r: Result<String, ExchangeError>)
    ensures
        match r {
            Ok(t) => known_value_of(raw@, trade_sides(), optional, "tradeSide"@) == Ok::<
                Seq<char>,
                ErrorView,
            >(t@),
            Err(e) => known_value_of(raw@, trade_sides(), optional, "tradeSide"@) == Err::<
                Seq<char>,
                ErrorView,
            >(e@),
        },
{
    let allowed = ["open", "close"];
    assert(crate::json::str_views(allowed@) =~= trade_sides());
    known_value(raw, &allowed, optional, "tradeSide")
}

pub fn known_margin_mode(raw: &str) -> (r: Result<String, ExchangeError>)
    ensures
        match r {
            Ok(t) => known_value_of(raw@, margin_modes(), false, "marginMode"@) == Ok::<
                Seq<char>,
                ErrorView,
            >(t@),
            Err(e) => known_value_of(raw@, margin_modes(), false, "marginMode"@) == Err::<
                Seq<char>,
                ErrorView,
            >(e@),
        },
{
    let allowed = ["crossed", "isolated", "cross"];
    assert(crate::json::str_views(allowed@) =~= margin_modes());
    known_value(raw, &allowed, false, "marginMode")
}

pub fn known_position_status(raw: &str) -> (r: Result<String, ExchangeError>)
    ensures
        match r {
            Ok(t) => known_value_of(raw@, position_statuses(), false, "positionStatus"@) == Ok::<
                Seq<char>,
                ErrorView,
            >(t@),
            Err(e) => known_value_of(raw@, position_statuses(), false, "positionStatus"@)
                == Err::<Seq<char>, ErrorView>(e@),
        },
{
    let allowed = ["opening", "ended", "normal", "liquidation", "adl"];
    assert(crate::json::str_views(allowed@) =~= position_statuses());
    known_value(raw, &allowed, false, "positionStatus")
}

/// The side of an order, in any case.
pub open spec fn order_side_of(raw: Seq<char>) -> Result<OrderSide, ErrorView> {
    let l = lower(raw);
    if l == "buy"@ {
        Ok(OrderSide::Buy)
    } else if l == "sell"@ {
        Ok(OrderSide::Sell)
    } else {
        Err(ws_error("order side invalid: "@ + raw))
    }
}

pub fn order_side(raw: &str) -> (r: Result<OrderSide, ExchangeError>)
    ensures
        match r {
            Ok(s) => order_side_of(raw@) == Ok::<OrderSide, ErrorView>(s),
            Err(e) => order_side_of(raw@) == Err::<OrderSide, ErrorView>(e@),
        },
{
    let l = to_lower(raw);
    if str_eq(l.as_str(), "buy") {
        Ok(OrderSide::Buy)
    } else if str_eq(l.as_str(), "sell") {
        Ok(OrderSide::Sell)
    } else {
        Err(ws_error_text(msg2("order side invalid: ", raw)))
    }
}

/// The type of an order from its `orderType` and time in force: a limit
/// order that only posts is post-only.
pub open spec fn order_type_of(raw_type: Seq<char>, force: Seq<char>) -> Result<OrderType, ErrorView> {
    let t = lower(raw_type);
    let f = lower(force);
    if t == "market"@ {
        Ok(OrderType::Market)
    } else if t == "limit"@ && (f == "post_only"@ || f == "postonly"@) {
        Ok(OrderType::PostOnly)
    } else if t == "limit"@ {
        Ok(OrderType::Limit)
    } else {
        Err(ws_error("order type invalid: orderType="@ + raw_type + " force="@ + force))
    }
}

pub fn order_type(raw_type: &str, force: &str) -> (r: Result<OrderType, ExchangeError>)
    ensures
        match r {
            Ok(t) => order_type_of(raw_type@, force@) == Ok::<OrderType, ErrorView>(t),
            Err(e) => order_type_of(raw_type@, force@) == Err::<OrderType, ErrorView>(e@),
        },
{
    let t = to_lower(raw_type);
    let f = to_lower(force);
    if str_eq(t.as_str(), "market") {
        Ok(OrderType::Market)
    } else if str_eq(t.as_str(), "limit") && (str_eq(f.as_str(), "post_only") || str_eq(
        f.as_str(),
        "postonly",
    )) {
        Ok(OrderType::PostOnly)
    } else if str_eq(t.as_str(), "limit") {
        Ok(OrderType::Limit)
    } else {
        let a = msg3("order type invalid: orderType=", raw_type, " force=");
        Err(ws_error_text(msg2(a.as_str(), force)))
    }
}

/// The status of an order, in any case.
pub open spec fn order_status_of(raw: Seq<char>) -> Result<OrderStatus, ErrorView> {
    let l = lower(raw);
    if l == "live"@ || l == "new"@ {
        Ok(OrderStatus::Open)
    } else if l == "partially_filled"@ {
        Ok(OrderStatus::PartiallyFilled)
    } else if l == "filled"@ {
        Ok(OrderStatus::Filled)
    } else if l == "canceled"@ || l == "cancelled"@ {
        Ok(OrderStatus::Canceled)
    } else {
        Err(ws_error("order status invalid: "@ + raw))
    }
}

pub fn order_status(raw: &str) -> (r: Result<OrderStatus, ExchangeError>)
    ensures
        match r {
            Ok(s) => order_status_of(raw@) == Ok::<OrderStatus, ErrorView>(s),
            Err(e) => order_status_of(raw@) == Err::<OrderStatus, ErrorView>(e@),
        },
{
    let l = to_lower(raw);
    let v = l.as_str();
    if str_eq(v, "live") || str_eq(v, "new") {
        Ok(OrderStatus::Open)
    } else if str_eq(v, "partially_filled") {
        Ok(OrderStatus::PartiallyFilled)
    } else if str_eq(v, "filled") {
        Ok(OrderStatus::Filled)
    } else if str_eq(v, "canceled") || str_eq(v, "cancelled") {
        Ok(OrderStatus::Canceled)
    } else {
        Err(ws_error_text(msg2("order status invalid: ", raw)))
    }
}

/// How a JSON value shows in an error: a string quoted, a number as the
/// parser renders it, arrays and objects by their kind.
pub open spec fn shown_value(v: JsonValue) -> Seq<char> {
    match v {
        JsonValue::Str(s) => quoted(s@),
        JsonValue::Number(JsonNumber::PosInt(n)) => nat_text(n as nat),
        JsonValue::Number(JsonNumber::NegInt(n)) => int_text(n as int),
        JsonValue::Number(JsonNumber::Float(t)) => t@,
        JsonValue::Array(_) => "<array>"@,
        JsonValue::Object(_) => "<object>"@,
        JsonValue::Bool(b) => if b {
            "true"@
        } else {
            "false"@
        },
        JsonValue::Null => "null"@,
    }
}

/// A JSON value read where a flag is expected: absent or `null`, a boolean,
/// a string, or anything else (kept as it shows in an error).
#[derive(Debug)]
pub enum FlagValue {
    Absent,
    Bool(bool),
    Text(String),
    Other(String),
}

pub ghost enum FlagValueView {
    Absent,
    Bool(bool),
    Text(Seq<char>),
    Other(Seq<char>),
}

impl View for FlagValue {
    type V = FlagValueView;

    open spec fn view(&self) -> FlagValueView {
        match self {
            FlagValue::Absent => FlagValueView::Absent,
            FlagValue::Bool(b) => FlagValueView::Bool(*b),
            FlagValue::Text(s) => FlagValueView::Text(s@),
            FlagValue::Other(s) => FlagValueView::Other(s@),
        }
    }
}

pub open spec fn flag_value_of(x: Option<JsonValue>) -> FlagValueView {
    match x {
        None => FlagValueView::Absent,
        Some(JsonValue::Null) => FlagValueView::Absent,
        Some(JsonValue::Bool(b)) => FlagValueView::Bool(b),
        Some(JsonValue::Str(s)) => FlagValueView::Text(s@),
        Some(v) => FlagValueView::Other(shown_value(v)),
    }
}

fn flag_value(x: Option<&JsonValue>) -> (r: FlagValue)
    ensures
        r@ == flag_value_of(opt(x)),
{
    match x {
        None => FlagValue::Absent,
        Some(JsonValue::Null) => FlagValue::Absent,
        Some(JsonValue::Bool(b)) => FlagValue::Bool(*b),
        Some(JsonValue::Str(s)) => FlagValue::Text(s.clone()),
        Some(v) => FlagValue::Other(show_value(v)),
    }
}

/// An optional flag: absent is `None`; a boolean is itself; the texts
/// `true`/`yes` and `false`/`no` in any case are set and unset.
pub open spec fn optional_flag_of(v: FlagValueView, field: Seq<char>) -> Result<Option<bool>, ErrorView> {
    match v {
        FlagValueView::Absent => Ok(None),
        FlagValueView::Bool(b) => Ok(Some(b)),
        FlagValueView::Text(s) => if eq_ignore_case(s, "true"@) || eq_ignore_case(s, "yes"@) {
            Ok(Some(true))
        } else if eq_ignore_case(s, "false"@) || eq_ignore_case(s, "no"@) {
            Ok(Some(false))
        } else {
            Err(ws_error("boolean field "@ + field + ": value="@ + quoted(s)))
        },
        FlagValueView::Other(shown) => Err(ws_error("boolean field "@ + field + ": value="@ + shown)),
    }
}

fn show_value(v: &JsonValue) -> (r: String)
    ensures
        r@ == shown_value(*v),
{
    let mut out = String::new();
    match v {
        JsonValue::Str(s) => {
            push_quoted(&mut out, s.as_str());
        },
        JsonValue::Number(JsonNumber::PosInt(n)) => {
            push_nat(&mut out, *n);
        },
        JsonValue::Number(JsonNumber::NegInt(n)) => {
            push_int(&mut out, *n);
        },
        JsonValue::Number(JsonNumber::Float(t)) => {
            push_str(&mut out, t.as_str());
        },
        JsonValue::Array(_) => {
            push_str(&mut out, "<array>");
        },
        JsonValue::Object(_) => {
            push_str(&mut out, "<object>");
        },
        JsonValue::Bool(b) => {
            push_str(&mut out, if *b { "true" } else { "false" });
        },
        JsonValue::Null => {
            push_str(&mut out, "null");
        },
    }
    assert(out@ =~= shown_value(*v));
    out
}

pub fn optional_flag(v: &FlagValue, field: &str) -> (r: Result<Option<bool>, ExchangeError>)
    ensures
        match r {
            Ok(b) => optional_flag_of(v@, field@) == Ok::<Option<bool>, ErrorView>(b),
            Err(e) => optional_flag_of(v@, field@) == Err::<Option<bool>, ErrorView>(e@),
        },
{
    match v {
        FlagValue::Absent => Ok(None),
        FlagValue::Bool(b) => Ok(Some(*b)),
        FlagValue::Text(s) => {
            if eq_ignore_ascii_case(s.as_str(), "true") || eq_ignore_ascii_case(s.as_str(), "yes") {
                Ok(Some(true))
            } else if eq_ignore_ascii_case(s.as_str(), "false") || eq_ignore_ascii_case(
                s.as_str(),
                "no",
            ) {
                Ok(Some(false))
            } else {
                let mut shown = String::new();
                push_quoted(&mut shown, s.as_str());
                let a = msg3("boolean field ", field, ": value=");
                Err(ws_error_text(msg2(a.as_str(), shown.as_str())))
            }
        },
        FlagValue::Other(shown) => {
            let a = msg3("boolean field ", field, ": value=");
            Err(ws_error_text(msg2(a.as_str(), shown.as_str())))
        },
    }
}


// ---------------------------------------------------------------------------
// Raw rows, as the frames carry them
// ---------------------------------------------------------------------------

/// A defaulted text field, under its name or an alias.
pub open spec fn tf(v: JsonValue, index: nat, keys: Seq<Seq<char>>) -> Result<Seq<char>, ()> {
    text_or_default(field_in(v, index, keys))
}

fn text1(v: &JsonValue, index: usize, a: &str) -> (r: Result<String, ()>)
    ensures
        match r {
            Ok(t) => tf(*v, index as nat, seq![a@]) == Ok::<Seq<char>, ()>(t@),
            Err(_) => tf(*v, index as nat, seq![a@]).is_err(),
        },
{
    let keys = [a];
    assert(str_views(keys@) =~= seq![a@]);
    decode_text_in(v, index, &keys)
}

fn text2(v: &JsonValue, index: usize, a: &str, b: &str) -> (r: Result<String, ()>)
    ensures
        match r {
            Ok(t) => tf(*v, index as nat, seq![a@, b@]) == Ok::<Seq<char>, ()>(t@),
            Err(_) => tf(*v, index as nat, seq![a@, b@]).is_err(),
        },
{
    let keys = [a, b];
    assert(str_views(keys@) =~= seq![a@, b@]);
    decode_text_in(v, index, &keys)
}

fn text3(v: &JsonValue, index: usize, a: &str, b: &str, c: &str) -> (r: Result<String, ()>)
    ensures
        match r {
            Ok(t) => tf(*v, index as nat, seq![a@, b@, c@]) == Ok::<Seq<char>, ()>(t@),
            Err(_) => tf(*v, index as nat, seq![a@, b@, c@]).is_err(),
        },
{
    let keys = [a, b, c];
    assert(str_views(keys@) =~= seq![a@, b@, c@]);
    decode_text_in(v, index, &keys)
}

fn member1<'a>(v: &'a JsonValue, index: usize, a: &str) -> (r: Option<&'a JsonValue>)
    ensures
        match r {
            Some(x) => field_in(*v, index as nat, seq![a@]) == Some(*x),
            None => field_in(*v, index as nat, seq![a@]).is_none(),
        },
{
    let keys = [a];
    assert(str_views(keys@) =~= seq![a@]);
    get_field_in(v, index, &keys)
}

#[derive(Debug)]
pub struct RawFeeDetail {
    pub fee_coin: String,
    pub fee: String,
}

pub ghost struct RawFeeDetailView {
    pub fee_coin: Seq<char>,
    pub fee: Seq<char>,
}

impl View for RawFeeDetail {
    type V = RawFeeDetailView;

    open spec fn view(&self) -> RawFeeDetailView {
        RawFeeDetailView {
            fee_coin: self.fee_coin@,
            fee: self.fee@,
        }
    }
}

pub open spec fn fee_views(rows: Seq<RawFeeDetail>) -> Seq<RawFeeDetailView> {
    rows.map_values(|r: RawFeeDetail| r@)
}

/// A `RawFeeDetail` read from a JSON value, as a derived deserializer reads it.
pub open spec fn decode_fee_of(v: JsonValue) -> Option<RawFeeDetailView> {
    if !struct_shaped(v, 2) {
        None
    } else {
        match ((tf(v, 0, seq!["feeCoin"@]), tf(v, 1, seq!["fee"@])),) {
            ((Ok(fee_coin), Ok(fee)),) => Some(RawFeeDetailView { fee_coin, fee }),
            _ => None,
        }
    }
}

pub open spec fn decode_fees_of(items: Seq<JsonValue>) -> Option<Seq<RawFeeDetailView>>
    decreases items.len(),
{
    if items.len() == 0 {
        Some(Seq::empty())
    } else {
        match (decode_fees_of(items.drop_last()), decode_fee_of(items.last())) {
            (Some(rows), Some(row)) => Some(rows.push(row)),
            _ => None,
        }
    }
}

pub fn decode_fee(v: &JsonValue) -> (r: Option<RawFeeDetail>)
    ensures
        match r {
            Some(x) => decode_fee_of(*v) == Some(x@),
            None => decode_fee_of(*v).is_none(),
        },
{
    if !is_struct_shaped(v, 2) {
        return None;
    }
    let fee_coin = match text1(v, 0, "feeCoin") {
        Ok(t) => t,
        Err(_) => return None,
    };
    let fee = match text1(v, 1, "fee") {
        Ok(t) => t,
        Err(_) => return None,
    };
    let r = RawFeeDetail { fee_coin, fee };
    assert(r@ == decode_fee_of(*v)->0);
    Some(r)
}

pub fn decode_fees(items: &Vec<JsonValue>) -> (r: Option<Vec<RawFeeDetail>>)
    ensures
        match r {
            Some(rows) => decode_fees_of(items@) == Some(fee_views(rows@)),
            None => decode_fees_of(items@).is_none(),
        },
{
    let n = items.len();
    let mut rows: Vec<RawFeeDetail> = Vec::new();
    let mut i: usize = 0;
    assert(items@.subrange(0, 0) =~= Seq::<JsonValue>::empty());
    assert(fee_views(rows@) =~= Seq::<RawFeeDetailView>::empty());
    while i < n
        invariant
            n == items@.len(),
            i <= n,
            decode_fees_of(items@.subrange(0, i as int)) == Some(fee_views(rows@)),
        decreases n - i,
    {
        let ghost next = items@.subrange(0, i + 1);
        assert(next.drop_last() =~= items@.subrange(0, i as int));
        assert(next.last() == items@[i as int]);
        match decode_fee(&items[i]) {
            Some(row) => {
                let ghost before = fee_views(rows@);
                rows.push(row);
                assert(fee_views(rows@) =~= before.push(row@));
            },
            None => {
                proof {
                    lemma_fees_prefix(items@, i + 1);
                }
                return None;
            },
        }
        i = i + 1;
    }
    assert(items@.subrange(0, n as int) =~= items@);
    Some(rows)
}

proof fn lemma_fees_prefix(items: Seq<JsonValue>, k: int)
    requires
        0 <= k <= items.len(),
        decode_fees_of(items.subrange(0, k)).is_none(),
    ensures
        decode_fees_of(items).is_none(),
    decreases items.len(),
{
    if k < items.len() {
        assert(items.drop_last().subrange(0, k) =~= items.subrange(0, k));
        lemma_fees_prefix(items.drop_last(), k);
    } else {
        assert(items.subrange(0, k) =~= items);
    }
}

#[derive(Debug)]
pub struct RawAccountDelta {
    pub coin: String,
    pub frozen: String,
    pub available: String,
    pub equity: String,
    pub usdt_equity: String,
}

pub ghost struct RawAccountDeltaView {
    pub coin: Seq<char>,
    pub frozen: Seq<char>,
    pub available: Seq<char>,
    pub equity: Seq<char>,
    pub usdt_equity: Seq<char>,
}

impl View for RawAccountDelta {
    type V = RawAccountDeltaView;

    open spec fn view(&self) -> RawAccountDeltaView {
        RawAccountDeltaView {
            coin: self.coin@,
            frozen: self.frozen@,
            available: self.available@,
            equity: self.equity@,
            usdt_equity: self.usdt_equity@,
        }
    }
}

pub open spec fn account_delta_views(rows: Seq<RawAccountDelta>) -> Seq<RawAccountDeltaView> {
    rows.map_values(|r: RawAccountDelta| r@)
}

/// A `RawAccountDelta` read from a JSON value, as a derived deserializer reads it.
pub open spec fn decode_account_delta_of(v: JsonValue) -> Option<RawAccountDeltaView> {
    if !struct_shaped(v, 5) {
        None
    } else {
        match ((tf(v, 0, seq!["coin"@]), tf(v, 1, seq!["locked"@, "frozen"@]), tf(v, 2, seq!["available"@]), tf(v, 3, seq!["equity"@]), tf(v, 4, seq!["usdValue"@, "usdtEquity"@])),) {
            ((Ok(coin), Ok(frozen), Ok(available), Ok(equity), Ok(usdt_equity)),) => Some(RawAccountDeltaView { coin, frozen, available, equity, usdt_equity }),
            _ => None,
        }
    }
}

pub open spec fn decode_account_deltas_of(items: Seq<JsonValue>) -> Option<Seq<RawAccountDeltaView>>
    decreases items.len(),
{
    if items.len() == 0 {
        Some(Seq::empty())
    } else {
        match (decode_account_deltas_of(items.drop_last()), decode_account_delta_of(items.last())) {
            (Some(rows), Some(row)) => Some(rows.push(row)),
            _ => None,
        }
    }
}

pub fn decode_account_delta(v: &JsonValue) -> (r: Option<RawAccountDelta>)
    ensures
        match r {
            Some(x) => decode_account_delta_of(*v) == Some(x@),
            None => decode_account_delta_of(*v).is_none(),
        },
{
    if !is_struct_shaped(v, 5) {
        return None;
    }
    let coin = match text1(v, 0, "coin") {
        Ok(t) => t,
        Err(_) => return None,
    };
    let frozen = match text2(v, 1, "locked", "frozen") {
        Ok(t) => t,
        Err(_) => return None,
    };
    let available = match text1(v, 2, "available") {
        Ok(t) => t,
        Err(_) => return None,
    };
    let equity = match text1(v, 3, "equity") {
        Ok(t) => t,
        Err(_) => return None,
    };
    let usdt_equity = match text2(v, 4, "usdValue", "usdtEquity") {
        Ok(t) => t,
        Err(_) => return None,
    };
    let r = RawAccountDelta { coin, frozen, available, equity, usdt_equity };
    assert(r@ == decode_account_delta_of(*v)->0);
    Some(r)
}

pub fn decode_account_deltas(items: &Vec<JsonValue>) -> (r: Option<Vec<RawAccountDelta>>)
    ensures
        match r {
            Some(rows) => decode_account_deltas_of(items@) == Some(account_delta_views(rows@)),
            None => decode_account_deltas_of(items@).is_none(),
        },
{
    let n = items.len();
    let mut rows: Vec<RawAccountDelta> = Vec::new();
    let mut i: usize = 0;
    assert(items@.subrange(0, 0) =~= Seq::<JsonValue>::empty());
    assert(account_delta_views(rows@) =~= Seq::<RawAccountDeltaView>::empty());
    while i < n
        invariant
            n == items@.len(),
            i <= n,
            decode_account_deltas_of(items@.subrange(0, i as int)) == Some(account_delta_views(rows@)),
        decreases n - i,
    {
        let ghost next = items@.subrange(0, i + 1);
        assert(next.drop_last() =~= items@.subrange(0, i as int));
        assert(next.last() == items@[i as int]);
        match decode_account_delta(&items[i]) {
            Some(row) => {
                let ghost before = account_delta_views(rows@);
                rows.push(row);
                assert(account_delta_views(rows@) =~= before.push(row@));
            },
            None => {
                proof {
                    lemma_account_deltas_prefix(items@, i + 1);
                }
                return None;
            },
        }
        i = i + 1;
    }
    assert(items@.subrange(0, n as int) =~= items@);
    Some(rows)
}

proof fn lemma_account_deltas_prefix(items: Seq<JsonValue>, k: int)
    requires
        0 <= k <= items.len(),
        decode_account_deltas_of(items.subrange(0, k)).is_none(),
    ensures
        decode_account_deltas_of(items).is_none(),
    decreases items.len(),
{
    if k < items.len() {
        assert(items.drop_last().subrange(0, k) =~= items.subrange(0, k));
        lemma_account_deltas_prefix(items.drop_last(), k);
    } else {
        assert(items.subrange(0, k) =~= items);
    }
}

#[derive(Debug)]
pub struct RawAccountState {
    pub total_equity: String,
    pub effective_equity: String,
    pub mmr: String,
    pub imr: String,
    pub margin_ratio: String,
    pub position_margin_ratio: String,
    pub unrealized_pnl: String,
    pub coins: Vec<RawAccountDelta>,
}

pub ghost struct RawAccountStateView {
    pub total_equity: Seq<char>,
    pub effective_equity: Seq<char>,
    pub mmr: Seq<char>,
    pub imr: Seq<char>,
    pub margin_ratio: Seq<char>,
    pub position_margin_ratio: Seq<char>,
    pub unrealized_pnl: Seq<char>,
    pub coins: Seq<RawAccountDeltaView>,
}

impl View for RawAccountState {
    type V = RawAccountStateView;

    open spec fn view(&self) -> RawAccountStateView {
        RawAccountStateView {
            total_equity: self.total_equity@,
            effective_equity: self.effective_equity@,
            mmr: self.mmr@,
            imr: self.imr@,
            margin_ratio: self.margin_ratio@,
            position_margin_ratio: self.position_margin_ratio@,
            unrealized_pnl: self.unrealized_pnl@,
            coins: account_delta_views(self.coins@),
        }
    }
}

pub open spec fn account_state_views(rows: Seq<RawAccountState>) -> Seq<RawAccountStateView> {
    rows.map_values(|r: RawAccountState| r@)
}

/// A `RawAccountState` read from a JSON value, as a derived deserializer reads it.
pub open spec fn decode_account_state_of(v: JsonValue) -> Option<RawAccountStateView> {
    if !struct_shaped(v, 8) {
        None
    } else {
        match ((tf(v, 0, seq!["totalEquity"@]), tf(v, 1, seq!["effEquity"@]), tf(v, 2, seq!["mmr"@]), tf(v, 3, seq!["imr"@]), tf(v, 4, seq!["mgnRatio"@]), tf(v, 5, seq!["positionMgnRatio"@])), (tf(v, 6, seq!["unrealisedPnL"@, "unrealizedPnl"@]), match list_or_default(field_in(v, 7, seq!["coin"@])) { Some(items) => decode_account_deltas_of(items), None => None })) {
            ((Ok(total_equity), Ok(effective_equity), Ok(mmr), Ok(imr), Ok(margin_ratio), Ok(position_margin_ratio)), (Ok(unrealized_pnl), Some(coins))) => Some(RawAccountStateView { total_equity, effective_equity, mmr, imr, margin_ratio, position_margin_ratio, unrealized_pnl, coins }),
            _ => None,
        }
    }
}

pub open spec fn decode_account_states_of(items: Seq<JsonValue>) -> Option<Seq<RawAccountStateView>>
    decreases items.len(),
{
    if items.len() == 0 {
        Some(Seq::empty())
    } else {
        match (decode_account_states_of(items.drop_last()), decode_account_state_of(items.last())) {
            (Some(rows), Some(row)) => Some(rows.push(row)),
            _ => None,
        }
    }
}

pub fn decode_account_state(v: &JsonValue) -> (r: Option<RawAccountState>)
    ensures
        match r {
            Some(x) => decode_account_state_of(*v) == Some(x@),
            None => decode_account_state_of(*v).is_none(),
        },
{
    if !is_struct_shaped(v, 8) {
        return None;
    }
    let total_equity = match text1(v, 0, "totalEquity") {
        Ok(t) => t,
        Err(_) => return None,
    };
    let effective_equity = match text1(v, 1, "effEquity") {
        Ok(t) => t,
        Err(_) => return None,
    };
    let mmr = match text1(v, 2, "mmr") {
        Ok(t) => t,
        Err(_) => return None,
    };
    let imr = match text1(v, 3, "imr") {
        Ok(t) => t,
        Err(_) => return None,
    };
    let margin_ratio = match text1(v, 4, "mgnRatio") {
        Ok(t) => t,
        Err(_) => return None,
    };
    let position_margin_ratio = match text1(v, 5, "positionMgnRatio") {
        Ok(t) => t,
        Err(_) => return None,
    };
    let unrealized_pnl = match text2(v, 6, "unrealisedPnL", "unrealizedPnl") {
        Ok(t) => t,
        Err(_) => return None,
    };
    let coins = match member1(v, 7, "coin") {
        None => {
            let e: Vec<RawAccountDelta> = Vec::new();
            assert(account_delta_views(e@) =~= Seq::<RawAccountDeltaView>::empty());
            e
        },
        Some(JsonValue::Array(items)) => match decode_account_deltas(items) {
            Some(rows) => rows,
            None => return None,
        },
        Some(_) => return None,
    };
    let r = RawAccountState { total_equity, effective_equity, mmr, imr, margin_ratio, position_margin_ratio, unrealized_pnl, coins };
    assert(r@ == decode_account_state_of(*v)->0);
    Some(r)
}

pub fn decode_account_states(items: &Vec<JsonValue>) -> (r: Option<Vec<RawAccountState>>)
    ensures
        match r {
            Some(rows) => decode_account_states_of(items@) == Some(account_state_views(rows@)),
            None => decode_account_states_of(items@).is_none(),
        },
{
    let n = items.len();
    let mut rows: Vec<RawAccountState> = Vec::new();
    let mut i: usize = 0;
    assert(items@.subrange(0, 0) =~= Seq::<JsonValue>::empty());
    assert(account_state_views(rows@) =~= Seq::<RawAccountStateView>::empty());
    while i < n
        invariant
            n == items@.len(),
            i <= n,
            decode_account_states_of(items@.subrange(0, i as int)) == Some(account_state_views(rows@)),
        decreases n - i,
    {
        let ghost next = items@.subrange(0, i + 1);
        assert(next.drop_last() =~= items@.subrange(0, i as int));
        assert(next.last() == items@[i as int]);
        match decode_account_state(&items[i]) {
            Some(row) => {
                let ghost before = account_state_views(rows@);
                rows.push(row);
                assert(account_state_views(rows@) =~= before.push(row@));
            },
            None => {
                proof {
                    lemma_account_states_prefix(items@, i + 1);
                }
                return None;
            },
        }
        i = i + 1;
    }
    assert(items@.subrange(0, n as int) =~= items@);
    Some(rows)
}

proof fn lemma_account_states_prefix(items: Seq<JsonValue>, k: int)
    requires
        0 <= k <= items.len(),
        decode_account_states_of(items.subrange(0, k)).is_none(),
    ensures
        decode_account_states_of(items).is_none(),
    decreases items.len(),
{
    if k < items.len() {
        assert(items.drop_last().subrange(0, k) =~= items.subrange(0, k));
        lemma_account_states_prefix(items.drop_last(), k);
    } else {
        assert(items.subrange(0, k) =~= items);
    }
}

#[derive(Debug)]
pub struct RawOrderUpdate {
    pub category: String,
    pub order_id: String,
    pub client_oid: String,
    pub reduce_only: String,
    pub hold_mode: String,
    pub hold_side: String,
    pub trade_side: String,
    pub symbol: String,
    pub side: String,
    pub order_type: String,
    pub force: String,
    pub status: String,
    pub qty: String,
    pub price: String,
    pub acc_filled_size: String,
    pub price_avg: String,
    pub fee_detail: Vec<RawFeeDetail>,
    pub created_time: String,
    pub updated_time: String,
    pub cancel_reason: String,
    pub total_profit: String,
}

pub ghost struct RawOrderUpdateView {
    pub category: Seq<char>,
    pub order_id: Seq<char>,
    pub client_oid: Seq<char>,
    pub reduce_only: Seq<char>,
    pub hold_mode: Seq<char>,
    pub hold_side: Seq<char>,
    pub trade_side: Seq<char>,
    pub symbol: Seq<char>,
    pub side: Seq<char>,
    pub order_type: Seq<char>,
    pub force: Seq<char>,
    pub status: Seq<char>,
    pub qty: Seq<char>,
    pub price: Seq<char>,
    pub acc_filled_size: Seq<char>,
    pub price_avg: Seq<char>,
    pub fee_detail: Seq<RawFeeDetailView>,
    pub created_time: Seq<char>,
    pub updated_time: Seq<char>,
    pub cancel_reason: Seq<char>,
    pub total_profit: Seq<char>,
}

impl View for RawOrderUpdate {
    type V = RawOrderUpdateView;

    open spec fn view(&self) -> RawOrderUpdateView {
        RawOrderUpdateView {
            category: self.category@,
            order_id: self.order_id@,
            client_oid: self.client_oid@,
            reduce_only: self.reduce_only@,
            hold_mode: self.hold_mode@,
            hold_side: self.hold_side@,
            trade_side: self.trade_side@,
            symbol: self.symbol@,
            side: self.side@,
            order_type: self.order_type@,
            force: self.force@,
            status: self.status@,
            qty: self.qty@,
            price: self.price@,
            acc_filled_size: self.acc_filled_size@,
            price_avg: self.price_avg@,
            fee_detail: fee_views(self.fee_detail@),
            created_time: self.created_time@,
            updated_time: self.updated_time@,
            cancel_reason: self.cancel_reason@,
            total_profit: self.total_profit@,
        }
    }
}

pub open spec fn order_row_views(rows: Seq<RawOrderUpdate>) -> Seq<RawOrderUpdateView> {
    rows.map_values(|r: RawOrderUpdate| r@)
}

/// A `RawOrderUpdate` read from a JSON value, as a derived deserializer reads it.
pub open spec fn decode_order_row_of(v: JsonValue) -> Option<RawOrderUpdateView> {
    if !struct_shaped(v, 21) {
        None
    } else {
        match ((tf(v, 0, seq!["category"@]), tf(v, 1, seq!["orderId"@]), tf(v, 2, seq!["clientOid"@]), tf(v, 3, seq!["reduceOnly"@]), tf(v, 4, seq!["holdMode"@]), tf(v, 5, seq!["holdSide"@])), (tf(v, 6, seq!["tradeSide"@]), tf(v, 7, seq!["symbol"@, "instId"@]), tf(v, 8, seq!["side"@]), tf(v, 9, seq!["orderType"@]), tf(v, 10, seq!["force"@, "timeInForce"@]), tf(v, 11, seq!["status"@, "orderStatus"@])), (tf(v, 12, seq!["qty"@, "size"@]), tf(v, 13, seq!["price"@]), tf(v, 14, seq!["accFillSize"@, "accBaseVolume"@, "cumExecQty"@]), tf(v, 15, seq!["priceAvg"@, "avgPrice"@]), match list_or_default(field_in(v, 16, seq!["feeDetail"@])) { Some(items) => decode_fees_of(items), None => None }, tf(v, 17, seq!["cTime"@, "createdTime"@])), (tf(v, 18, seq!["updatedTime"@]), tf(v, 19, seq!["cancelReason"@]), tf(v, 20, seq!["totalProfit"@]))) {
            ((Ok(category), Ok(order_id), Ok(client_oid), Ok(reduce_only), Ok(hold_mode), Ok(hold_side)), (Ok(trade_side), Ok(symbol), Ok(side), Ok(order_type), Ok(force), Ok(status)), (Ok(qty), Ok(price), Ok(acc_filled_size), Ok(price_avg), Some(fee_detail), Ok(created_time)), (Ok(updated_time), Ok(cancel_reason), Ok(total_profit))) => Some(RawOrderUpdateView { category, order_id, client_oid, reduce_only, hold_mode, hold_side, trade_side, symbol, side, order_type, force, status, qty, price, acc_filled_size, price_avg, fee_detail, created_time, updated_time, cancel_reason, total_profit }),
            _ => None,
        }
    }
}

pub open spec fn decode_order_rows_of(items: Seq<JsonValue>) -> Option<Seq<RawOrderUpdateView>>
    decreases items.len(),
{
    if items.len() == 0 {
        Some(Seq::empty())
    } else {
        match (decode_order_rows_of(items.drop_last()), decode_order_row_of(items.last())) {
            (Some(rows), Some(row)) => Some(rows.push(row)),
            _ => None,
        }
    }
}

pub fn decode_order_row(v: &JsonValue) -> (r: Option<RawOrderUpdate>)
    ensures
        match r {
            Some(x) => decode_order_row_of(*v) == Some(x@),
            None => decode_order_row_of(*v).is_none(),
        },
{
    if !is_struct_shaped(v, 21) {
        return None;
    }
    let category = match text1(v, 0, "category") {
        Ok(t) => t,
        Err(_) => return None,
    };
    let order_id = match text1(v, 1, "orderId") {
        Ok(t) => t,
        Err(_) => return None,
    };
    let client_oid = match text1(v, 2, "clientOid") {
        Ok(t) => t,
        Err(_) => return None,
    };
    let reduce_only = match text1(v, 3, "reduceOnly") {
        Ok(t) => t,
        Err(_) => return None,
    };
    let hold_mode = match text1(v, 4, "holdMode") {
        Ok(t) => t,
        Err(_) => return None,
    };
    let hold_side = match text1(v, 5, "holdSide") {
        Ok(t) => t,
        Err(_) => return None,
    };
    let trade_side = match text1(v, 6, "tradeSide") {
        Ok(t) => t,
        Err(_) => return None,
    };
    let symbol = match text2(v, 7, "symbol", "instId") {
        Ok(t) => t,
        Err(_) => return None,
    };
    let side = match text1(v, 8, "side") {
        Ok(t) => t,
        Err(_) => return None,
    };
    let order_type = match text1(v, 9, "orderType") {
        Ok(t) => t,
        Err(_) => return None,
    };
    let force = match text2(v, 10, "force", "timeInForce") {
        Ok(t) => t,
        Err(_) => return None,
    };
    let status = match text2(v, 11, "status", "orderStatus") {
        Ok(t) => t,
        Err(_) => return None,
    };
    let qty = match text2(v, 12, "qty", "size") {
        Ok(t) => t,
        Err(_) => return None,
    };
    let price = match text1(v, 13, "price") {
        Ok(t) => t,
        Err(_) => return None,
    };
    let acc_filled_size = match text3(v, 14, "accFillSize", "accBaseVolume", "cumExecQty") {
        Ok(t) => t,
        Err(_) => return None,
    };
    let price_avg = match text2(v, 15, "priceAvg", "avgPrice") {
        Ok(t) => t,
        Err(_) => return None,
    };
    let fee_detail = match member1(v, 16, "feeDetail") {
        None => {
            let e: Vec<RawFeeDetail> = Vec::new();
            assert(fee_views(e@) =~= Seq::<RawFeeDetailView>::empty());
            e
        },
        Some(JsonValue::Array(items)) => match decode_fees(items) {
            Some(rows) => rows,
            None => return None,
        },
        Some(_) => return None,
    };
    let created_time = match text2(v, 17, "cTime", "createdTime") {
        Ok(t) => t,
        Err(_) => return None,
    };
    let updated_time = match text1(v, 18, "updatedTime") {
        Ok(t) => t,
        Err(_) => return None,
    };
    let cancel_reason = match text1(v, 19, "cancelReason") {
        Ok(t) => t,
        Err(_) => return None,
    };
    let total_profit = match text1(v, 20, "totalProfit") {
        Ok(t) => t,
        Err(_) => return None,
    };
    let r = RawOrderUpdate { category, order_id, client_oid, reduce_only, hold_mode, hold_side, trade_side, symbol, side, order_type, force, status, qty, price, acc_filled_size, price_avg, fee_detail, created_time, updated_time, cancel_reason, total_profit };
    assert(r@ == decode_order_row_of(*v)->0);
    Some(r)
}

pub fn decode_order_rows(items: &Vec<JsonValue>) -> (r: Option<Vec<RawOrderUpdate>>)
    ensures
        match r {
            Some(rows) => decode_order_rows_of(items@) == Some(order_row_views(rows@)),
            None => decode_order_rows_of(items@).is_none(),
        },
{
    let n = items.len();
    let mut rows: Vec<RawOrderUpdate> = Vec::new();
    let mut i: usize = 0;
    assert(items@.subrange(0, 0) =~= Seq::<JsonValue>::empty());
    assert(order_row_views(rows@) =~= Seq::<RawOrderUpdateView>::empty());
    while i < n
        invariant
            n == items@.len(),
            i <= n,
            decode_order_rows_of(items@.subrange(0, i as int)) == Some(order_row_views(rows@)),
        decreases n - i,
    {
        let ghost next = items@.subrange(0, i + 1);
        assert(next.drop_last() =~= items@.subrange(0, i as int));
        assert(next.last() == items@[i as int]);
        match decode_order_row(&items[i]) {
            Some(row) => {
                let ghost before = order_row_views(rows@);
                rows.push(row);
                assert(order_row_views(rows@) =~= before.push(row@));
            },
            None => {
                proof {
                    lemma_order_rows_prefix(items@, i + 1);
                }
                return None;
            },
        }
        i = i + 1;
    }
    assert(items@.subrange(0, n as int) =~= items@);
    Some(rows)
}

proof fn lemma_order_rows_prefix(items: Seq<JsonValue>, k: int)
    requires
        0 <= k <= items.len(),
        decode_order_rows_of(items.subrange(0, k)).is_none(),
    ensures
        decode_order_rows_of(items).is_none(),
    decreases items.len(),
{
    if k < items.len() {
        assert(items.drop_last().subrange(0, k) =~= items.subrange(0, k));
        lemma_order_rows_prefix(items.drop_last(), k);
    } else {
        assert(items.subrange(0, k) =~= items);
    }
}

#[derive(Debug)]
pub struct RawPositionDelta {
    pub symbol: String,
    pub margin_coin: String,
    pub margin_size: String,
    pub margin_mode: String,
    pub hold_mode: String,
    pub position_status: String,
    pub hold_side: String,
    pub qty: String,
    pub available: String,
    pub frozen: String,
    pub open_price_avg: String,
    pub leverage: String,
    pub unrealized_pnl: String,
    pub liquidation_price: String,
    pub keep_margin_rate: String,
    pub mark_price: String,
    pub updated_time: String,
}

pub ghost struct RawPositionDeltaView {
    pub symbol: Seq<char>,
    pub margin_coin: Seq<char>,
    pub margin_size: Seq<char>,
    pub margin_mode: Seq<char>,
    pub hold_mode: Seq<char>,
    pub position_status: Seq<char>,
    pub hold_side: Seq<char>,
    pub qty: Seq<char>,
    pub available: Seq<char>,
    pub frozen: Seq<char>,
    pub open_price_avg: Seq<char>,
    pub leverage: Seq<char>,
    pub unrealized_pnl: Seq<char>,
    pub liquidation_price: Seq<char>,
    pub keep_margin_rate: Seq<char>,
    pub mark_price: Seq<char>,
    pub updated_time: Seq<char>,
}

impl View for RawPositionDelta {
    type V = RawPositionDeltaView;

    open spec fn view(&self) -> RawPositionDeltaView {
        RawPositionDeltaView {
            symbol: self.symbol@,
            margin_coin: self.margin_coin@,
            margin_size: self.margin_size@,
            margin_mode: self.margin_mode@,
            hold_mode: self.hold_mode@,
            position_status: self.position_status@,
            hold_side: self.hold_side@,
            qty: self.qty@,
            available: self.available@,
            frozen: self.frozen@,
            open_price_avg: self.open_price_avg@,
            leverage: self.leverage@,
            unrealized_pnl: self.unrealized_pnl@,
            liquidation_price: self.liquidation_price@,
            keep_margin_rate: self.keep_margin_rate@,
            mark_price: self.mark_price@,
            updated_time: self.updated_time@,
        }
    }
}

pub open spec fn position_row_views(rows: Seq<RawPositionDelta>) -> Seq<RawPositionDeltaView> {
    rows.map_values(|r: RawPositionDelta| r@)
}

/// A `RawPositionDelta` read from a JSON value, as a derived deserializer reads it.
pub open spec fn decode_position_row_of(v: JsonValue) -> Option<RawPositionDeltaView> {
    if !struct_shaped(v, 17) {
        None
    } else {
        match ((tf(v, 0, seq!["symbol"@, "instId"@]), tf(v, 1, seq!["marginCoin"@]), tf(v, 2, seq!["marginSize"@]), tf(v, 3, seq!["marginMode"@]), tf(v, 4, seq!["holdMode"@]), tf(v, 5, seq!["positionStatus"@])), (tf(v, 6, seq!["posSide"@, "holdSide"@]), tf(v, 7, seq!["size"@, "qty"@, "total"@]), tf(v, 8, seq!["available"@]), tf(v, 9, seq!["frozen"@]), tf(v, 10, seq!["avgPrice"@, "openPriceAvg"@]), tf(v, 11, seq!["leverage"@])), (tf(v, 12, seq!["unrealisedPnl"@, "unrealizedPnl"@, "unrealizedPL"@]), tf(v, 13, seq!["liqPrice"@, "liquidationPrice"@]), tf(v, 14, seq!["mmr"@, "keepMarginRate"@]), tf(v, 15, seq!["markPrice"@]), tf(v, 16, seq!["updatedTime"@, "uTime"@]))) {
            ((Ok(symbol), Ok(margin_coin), Ok(margin_size), Ok(margin_mode), Ok(hold_mode), Ok(position_status)), (Ok(hold_side), Ok(qty), Ok(available), Ok(frozen), Ok(open_price_avg), Ok(leverage)), (Ok(unrealized_pnl), Ok(liquidation_price), Ok(keep_margin_rate), Ok(mark_price), Ok(updated_time))) => Some(RawPositionDeltaView { symbol, margin_coin, margin_size, margin_mode, hold_mode, position_status, hold_side, qty, available, frozen, open_price_avg, leverage, unrealized_pnl, liquidation_price, keep_margin_rate, mark_price, updated_time }),
            _ => None,
        }
    }
}

pub open spec fn decode_position_rows_of(items: Seq<JsonValue>) -> Option<Seq<RawPositionDeltaView>>
    decreases items.len(),
{
    if items.len() == 0 {
        Some(Seq::empty())
    } else {
        match (decode_position_rows_of(items.drop_last()), decode_position_row_of(items.last())) {
            (Some(rows), Some(row)) => Some(rows.push(row)),
            _ => None,
        }
    }
}

pub fn decode_position_row(v: &JsonValue) -> (r: Option<RawPositionDelta>)
    ensures
        match r {
            Some(x) => decode_position_row_of(*v) == Some(x@),
            None => decode_position_row_of(*v).is_none(),
        },
{
    if !is_struct_shaped(v, 17) {
        return None;
    }
    let symbol = match text2(v, 0, "symbol", "instId") {
        Ok(t) => t,
        Err(_) => return None,
    };
    let margin_coin = match text1(v, 1, "marginCoin") {
        Ok(t) => t,
        Err(_) => return None,
    };
    let margin_size = match text1(v, 2, "marginSize") {
        Ok(t) => t,
        Err(_) => return None,
    };
    let margin_mode = match text1(v, 3, "marginMode") {
        Ok(t) => t,
        Err(_) => return None,
    };
    let hold_mode = match text1(v, 4, "holdMode") {
        Ok(t) => t,
        Err(_) => return None,
    };
    let position_status = match text1(v, 5, "positionStatus") {
        Ok(t) => t,
        Err(_) => return None,
    };
    let hold_side = match text2(v, 6, "posSide", "holdSide") {
        Ok(t) => t,
        Err(_) => return None,
    };
    let qty = match text3(v, 7, "size", "qty", "total") {
        Ok(t) => t,
        Err(_) => return None,
    };
    let available = match text1(v, 8, "available") {
        Ok(t) => t,
        Err(_) => return None,
    };
    let frozen = match text1(v, 9, "frozen") {
        Ok(t) => t,
        Err(_) => return None,
    };
    let open_price_avg = match text2(v, 10, "avgPrice", "openPriceAvg") {
        Ok(t) => t,
        Err(_) => return None,
    };
    let leverage = match text1(v, 11, "leverage") {
        Ok(t) => t,
        Err(_) => return None,
    };
    let unrealized_pnl = match text3(v, 12, "unrealisedPnl", "unrealizedPnl", "unrealizedPL") {
        Ok(t) => t,
        Err(_) => return None,
    };
    let liquidation_price = match text2(v, 13, "liqPrice", "liquidationPrice") {
        Ok(t) => t,
        Err(_) => return None,
    };
    let keep_margin_rate = match text2(v, 14, "mmr", "keepMarginRate") {
        Ok(t) => t,
        Err(_) => return None,
    };
    let mark_price = match text1(v, 15, "markPrice") {
        Ok(t) => t,
        Err(_) => return None,
    };
    let updated_time = match text2(v, 16, "updatedTime", "uTime") {
        Ok(t) => t,
        Err(_) => return None,
    };
    let r = RawPositionDelta { symbol, margin_coin, margin_size, margin_mode, hold_mode, position_status, hold_side, qty, available, frozen, open_price_avg, leverage, unrealized_pnl, liquidation_price, keep_margin_rate, mark_price, updated_time };
    assert(r@ == decode_position_row_of(*v)->0);
    Some(r)
}

pub fn decode_position_rows(items: &Vec<JsonValue>) -> (r: Option<Vec<RawPositionDelta>>)
    ensures
        match r {
            Some(rows) => decode_position_rows_of(items@) == Some(position_row_views(rows@)),
            None => decode_position_rows_of(items@).is_none(),
        },
{
    let n = items.len();
    let mut rows: Vec<RawPositionDelta> = Vec::new();
    let mut i: usize = 0;
    assert(items@.subrange(0, 0) =~= Seq::<JsonValue>::empty());
    assert(position_row_views(rows@) =~= Seq::<RawPositionDeltaView>::empty());
    while i < n
        invariant
            n == items@.len(),
            i <= n,
            decode_position_rows_of(items@.subrange(0, i as int)) == Some(position_row_views(rows@)),
        decreases n - i,
    {
        let ghost next = items@.subrange(0, i + 1);
        assert(next.drop_last() =~= items@.subrange(0, i as int));
        assert(next.last() == items@[i as int]);
        match decode_position_row(&items[i]) {
            Some(row) => {
                let ghost before = position_row_views(rows@);
                rows.push(row);
                assert(position_row_views(rows@) =~= before.push(row@));
            },
            None => {
                proof {
                    lemma_position_rows_prefix(items@, i + 1);
                }
                return None;
            },
        }
        i = i + 1;
    }
    assert(items@.subrange(0, n as int) =~= items@);
    Some(rows)
}

proof fn lemma_position_rows_prefix(items: Seq<JsonValue>, k: int)
    requires
        0 <= k <= items.len(),
        decode_position_rows_of(items.subrange(0, k)).is_none(),
    ensures
        decode_position_rows_of(items).is_none(),
    decreases items.len(),
{
    if k < items.len() {
        assert(items.drop_last().subrange(0, k) =~= items.subrange(0, k));
        lemma_position_rows_prefix(items.drop_last(), k);
    } else {
        assert(items.subrange(0, k) =~= items);
    }
}

#[derive(Debug)]
pub struct RawFillUpdate {
    pub category: String,
    pub order_id: String,
    pub client_oid: String,
    pub exec_id: String,
    pub symbol: String,
    pub side: String,
    pub hold_side: String,
    pub trade_side: String,
    pub price: String,
    pub size: String,
    pub value: String,
    pub realized_pnl: String,
    pub fee_detail: Vec<RawFeeDetail>,
    pub trade_time: String,
    pub updated_time: String,
    pub is_rpi: FlagValue,
}

pub ghost struct RawFillUpdateView {
    pub category: Seq<char>,
    pub order_id: Seq<char>,
    pub client_oid: Seq<char>,
    pub exec_id: Seq<char>,
    pub symbol: Seq<char>,
    pub side: Seq<char>,
    pub hold_side: Seq<char>,
    pub trade_side: Seq<char>,
    pub price: Seq<char>,
    pub size: Seq<char>,
    pub value: Seq<char>,
    pub realized_pnl: Seq<char>,
    pub fee_detail: Seq<RawFeeDetailView>,
    pub trade_time: Seq<char>,
    pub updated_time: Seq<char>,
    pub is_rpi: FlagValueView,
}

impl View for RawFillUpdate {
    type V = RawFillUpdateView;

    open spec fn view(&self) -> RawFillUpdateView {
        RawFillUpdateView {
            category: self.category@,
            order_id: self.order_id@,
            client_oid: self.client_oid@,
            exec_id: self.exec_id@,
            symbol: self.symbol@,
            side: self.side@,
            hold_side: self.hold_side@,
            trade_side: self.trade_side@,
            price: self.price@,
            size: self.size@,
            value: self.value@,
            realized_pnl: self.realized_pnl@,
            fee_detail: fee_views(self.fee_detail@),
            trade_time: self.trade_time@,
            updated_time: self.updated_time@,
            is_rpi: self.is_rpi@,
        }
    }
}

pub open spec fn fill_row_views(rows: Seq<RawFillUpdate>) -> Seq<RawFillUpdateView> {
    rows.map_values(|r: RawFillUpdate| r@)
}

/// A `RawFillUpdate` read from a JSON value, as a derived deserializer reads it.
pub open spec fn decode_fill_row_of(v: JsonValue) -> Option<RawFillUpdateView> {
    if !struct_shaped(v, 16) {
        None
    } else {
        match ((tf(v, 0, seq!["category"@]), tf(v, 1, seq!["orderId"@]), tf(v, 2, seq!["clientOid"@]), tf(v, 3, seq!["execId"@]), tf(v, 4, seq!["symbol"@, "instId"@]), tf(v, 5, seq!["side"@])), (tf(v, 6, seq!["holdSide"@]), tf(v, 7, seq!["tradeSide"@]), tf(v, 8, seq!["execPrice"@, "price"@]), tf(v, 9, seq!["execQty"@, "size"@]), tf(v, 10, seq!["execValue"@]), tf(v, 11, seq!["execPnl"@])), (match list_or_default(field_in(v, 12, seq!["feeDetail"@])) { Some(items) => decode_fees_of(items), None => None }, tf(v, 13, seq!["execTime"@, "tradeTime"@, "cTime"@]), tf(v, 14, seq!["updatedTime"@]), Some(flag_value_of(field_in(v, 15, seq!["isRPI"@]))))) {
            ((Ok(category), Ok(order_id), Ok(client_oid), Ok(exec_id), Ok(symbol), Ok(side)), (Ok(hold_side), Ok(trade_side), Ok(price), Ok(size), Ok(value), Ok(realized_pnl)), (Some(fee_detail), Ok(trade_time), Ok(updated_time), Some(is_rpi))) => Some(RawFillUpdateView { category, order_id, client_oid, exec_id, symbol, side, hold_side, trade_side, price, size, value, realized_pnl, fee_detail, trade_time, updated_time, is_rpi }),
            _ => None,
        }
    }
}

pub open spec fn decode_fill_rows_of(items: Seq<JsonValue>) -> Option<Seq<RawFillUpdateView>>
    decreases items.len(),
{
    if items.len() == 0 {
        Some(Seq::empty())
    } else {
        match (decode_fill_rows_of(items.drop_last()), decode_fill_row_of(items.last())) {
            (Some(rows), Some(row)) => Some(rows.push(row)),
            _ => None,
        }
    }
}

pub fn decode_fill_row(v: &JsonValue) -> (r: Option<RawFillUpdate>)
    ensures
        match r {
            Some(x) => decode_fill_row_of(*v) == Some(x@),
            None => decode_fill_row_of(*v).is_none(),
        },
{
    if !is_struct_shaped(v, 16) {
        return None;
    }
    let category = match text1(v, 0, "category") {
        Ok(t) => t,
        Err(_) => return None,
    };
    let order_id = match text1(v, 1, "orderId") {
        Ok(t) => t,
        Err(_) => return None,
    };
    let client_oid = match text1(v, 2, "clientOid") {
        Ok(t) => t,
        Err(_) => return None,
    };
    let exec_id = match text1(v, 3, "execId") {
        Ok(t) => t,
        Err(_) => return None,
    };
    let symbol = match text2(v, 4, "symbol", "instId") {
        Ok(t) => t,
        Err(_) => return None,
    };
    let side = match text1(v, 5, "side") {
        Ok(t) => t,
        Err(_) => return None,
    };
    let hold_side = match text1(v, 6, "holdSide") {
        Ok(t) => t,
        Err(_) => return None,
    };
    let trade_side = match text1(v, 7, "tradeSide") {
        Ok(t) => t,
        Err(_) => return None,
    };
    let price = match text2(v, 8, "execPrice", "price") {
        Ok(t) => t,
        Err(_) => return None,
    };
    let size = match text2(v, 9, "execQty", "size") {
        Ok(t) => t,
        Err(_) => return None,
    };
    let value = match text1(v, 10, "execValue") {
        Ok(t) => t,
        Err(_) => return None,
    };
    let realized_pnl = match text1(v, 11, "execPnl") {
        Ok(t) => t,
        Err(_) => return None,
    };
    let fee_detail = match member1(v, 12, "feeDetail") {
        None => {
            let e: Vec<RawFeeDetail> = Vec::new();
            assert(fee_views(e@) =~= Seq::<RawFeeDetailView>::empty());
            e
        },
        Some(JsonValue::Array(items)) => match decode_fees(items) {
            Some(rows) => rows,
            None => return None,
        },
        Some(_) => return None,
    };
    let trade_time = match text3(v, 13, "execTime", "tradeTime", "cTime") {
        Ok(t) => t,
        Err(_) => return None,
    };
    let updated_time = match text1(v, 14, "updatedTime") {
        Ok(t) => t,
        Err(_) => return None,
    };
    let is_rpi = flag_value(member1(v, 15, "isRPI"));
    let r = RawFillUpdate { category, order_id, client_oid, exec_id, symbol, side, hold_side, trade_side, price, size, value, realized_pnl, fee_detail, trade_time, updated_time, is_rpi };
    assert(r@ == decode_fill_row_of(*v)->0);
    Some(r)
}

pub fn decode_fill_rows(items: &Vec<JsonValue>) -> (r: Option<Vec<RawFillUpdate>>)
    ensures
        match r {
            Some(rows) => decode_fill_rows_of(items@) == Some(fill_row_views(rows@)),
            None => decode_fill_rows_of(items@).is_none(),
        },
{
    let n = items.len();
    let mut rows: Vec<RawFillUpdate> = Vec::new();
    let mut i: usize = 0;
    assert(items@.subrange(0, 0) =~= Seq::<JsonValue>::empty());
    assert(fill_row_views(rows@) =~= Seq::<RawFillUpdateView>::empty());
    while i < n
        invariant
            n == items@.len(),
            i <= n,
            decode_fill_rows_of(items@.subrange(0, i as int)) == Some(fill_row_views(rows@)),
        decreases n - i,
    {
        let ghost next = items@.subrange(0, i + 1);
        assert(next.drop_last() =~= items@.subrange(0, i as int));
        assert(next.last() == items@[i as int]);
        match decode_fill_row(&items[i]) {
            Some(row) => {
                let ghost before = fill_row_views(rows@);
                rows.push(row);
                assert(fill_row_views(rows@) =~= before.push(row@));
            },
            None => {
                proof {
                    lemma_fill_rows_prefix(items@, i + 1);
                }
                return None;
            },
        }
        i = i + 1;
    }
    assert(items@.subrange(0, n as int) =~= items@);
    Some(rows)
}

proof fn lemma_fill_rows_prefix(items: Seq<JsonValue>, k: int)
    requires
        0 <= k <= items.len(),
        decode_fill_rows_of(items.subrange(0, k)).is_none(),
    ensures
        decode_fill_rows_of(items).is_none(),
    decreases items.len(),
{
    if k < items.len() {
        assert(items.drop_last().subrange(0, k) =~= items.subrange(0, k));
        lemma_fill_rows_prefix(items.drop_last(), k);
    } else {
        assert(items.subrange(0, k) =~= items);
    }
}

// ---------------------------------------------------------------------------
// Events
// ---------------------------------------------------------------------------

#[derive(Debug)]
pub struct BitgetAccountDelta {
    pub coin: String,
    pub frozen: String,
    pub available: String,
    pub equity: String,
    pub usdt_equity: String,
    /// The account's unrealised PnL on the USDT row, zero on the others.
    pub unrealized_pnl: String,
}

pub ghost struct AccountDeltaView {
    pub coin: Seq<char>,
    pub frozen: Seq<char>,
    pub available: Seq<char>,
    pub equity: Seq<char>,
    pub usdt_equity: Seq<char>,
    pub unrealized_pnl: Seq<char>,
}

impl View for BitgetAccountDelta {
    type V = AccountDeltaView;

    open spec fn view(&self) -> AccountDeltaView {
        AccountDeltaView {
            coin: self.coin@,
            frozen: self.frozen@,
            available: self.available@,
            equity: self.equity@,
            usdt_equity: self.usdt_equity@,
            unrealized_pnl: self.unrealized_pnl@,
        }
    }
}

/// The aggregate UTA account state with its per-coin rows.
#[derive(Debug)]
pub struct BitgetAccountUpdate {
    pub action: String,
    pub total_equity: String,
    pub effective_equity: String,
    pub initial_margin: String,
    pub maintenance_margin: String,
    pub margin_ratio: String,
    pub position_margin_ratio: String,
    pub unrealized_pnl: String,
    pub accounts: Vec<BitgetAccountDelta>,
}

pub ghost struct AccountUpdateView {
    pub action: Seq<char>,
    pub total_equity: Seq<char>,
    pub effective_equity: Seq<char>,
    pub initial_margin: Seq<char>,
    pub maintenance_margin: Seq<char>,
    pub margin_ratio: Seq<char>,
    pub position_margin_ratio: Seq<char>,
    pub unrealized_pnl: Seq<char>,
    pub accounts: Seq<AccountDeltaView>,
}

pub open spec fn delta_views(rows: Seq<BitgetAccountDelta>) -> Seq<AccountDeltaView> {
    rows.map_values(|r: BitgetAccountDelta| r@)
}

impl View for BitgetAccountUpdate {
    type V = AccountUpdateView;

    open spec fn view(&self) -> AccountUpdateView {
        AccountUpdateView {
            action: self.action@,
            total_equity: self.total_equity@,
            effective_equity: self.effective_equity@,
            initial_margin: self.initial_margin@,
            maintenance_margin: self.maintenance_margin@,
            margin_ratio: self.margin_ratio@,
            position_margin_ratio: self.position_margin_ratio@,
            unrealized_pnl: self.unrealized_pnl@,
            accounts: delta_views(self.accounts@),
        }
    }
}

// ---------------------------------------------------------------------------
// Account frames
// ---------------------------------------------------------------------------

/// One coin row of the account: the account's unrealised PnL is carried on
/// the USDT row only.
pub open spec fn account_delta_of(row: RawAccountDeltaView, upnl: Seq<char>) -> Result<
    AccountDeltaView,
    ErrorView,
> {
    match text_field(row.coin, "account.coin"@) {
        Err(e) => Err(e),
        Ok(coin) => match required_number_field(row.frozen, "account.frozen"@) {
            Err(e) => Err(e),
            Ok(frozen) => match required_number_field(row.available, "account.available"@) {
                Err(e) => Err(e),
                Ok(available) => match required_number_field(row.equity, "account.equity"@) {
                    Err(e) => Err(e),
                    Ok(equity) => match required_number_field(
                        row.usdt_equity,
                        "account.usdtEquity"@,
                    ) {
                        Err(e) => Err(e),
                        Ok(usdt_equity) => Ok(
                            AccountDeltaView {
                                coin,
                                frozen,
                                available,
                                equity,
                                usdt_equity,
                                unrealized_pnl: if eq_ignore_case(coin, "USDT"@) {
                                    upnl
                                } else {
                                    "0"@
                                },
                            },
                        ),
                    },
                },
            },
        },
    }
}

pub fn account_delta(row: &RawAccountDelta, upnl: &str) -> (r: Result<BitgetAccountDelta, ExchangeError>)
    ensures
        match r {
            Ok(d) => account_delta_of(row@, upnl@) == Ok::<AccountDeltaView, ErrorView>(d@),
            Err(e) => account_delta_of(row@, upnl@) == Err::<AccountDeltaView, ErrorView>(e@),
        },
{
    let coin = required_text(row.coin.as_str(), "account.coin")?;
    let frozen = parse_required_number(row.frozen.as_str(), "account.frozen")?;
    let available = parse_required_number(row.available.as_str(), "account.available")?;
    let equity = parse_required_number(row.equity.as_str(), "account.equity")?;
    let usdt_equity = parse_required_number(row.usdt_equity.as_str(), "account.usdtEquity")?;
    let unrealized_pnl = if eq_ignore_ascii_case(coin.as_str(), "USDT") {
        upnl.to_owned()
    } else {
        "0".to_owned()
    };
    Ok(BitgetAccountDelta { coin, frozen, available, equity, usdt_equity, unrealized_pnl })
}

/// The coin rows, in order; the first failing row's error otherwise.
pub open spec fn account_deltas_of(rows: Seq<RawAccountDeltaView>, upnl: Seq<char>) -> Result<
    Seq<AccountDeltaView>,
    ErrorView,
>
    decreases rows.len(),
{
    if rows.len() == 0 {
        Ok(Seq::empty())
    } else {
        match account_deltas_of(rows.drop_last(), upnl) {
            Err(e) => Err(e),
            Ok(prev) => match account_delta_of(rows.last(), upnl) {
                Err(e) => Err(e),
                Ok(d) => Ok(prev.push(d)),
            },
        }
    }
}

proof fn lemma_deltas_error_prefix(rows: Seq<RawAccountDeltaView>, upnl: Seq<char>, k: int)
    requires
        0 <= k <= rows.len(),
        account_deltas_of(rows.subrange(0, k), upnl) is Err,
    ensures
        account_deltas_of(rows, upnl) == account_deltas_of(rows.subrange(0, k), upnl),
    decreases rows.len(),
{
    if k < rows.len() {
        assert(rows.drop_last().subrange(0, k) =~= rows.subrange(0, k));
        lemma_deltas_error_prefix(rows.drop_last(), upnl, k);
    } else {
        assert(rows.subrange(0, k) =~= rows);
    }
}

fn account_deltas(rows: &Vec<RawAccountDelta>, upnl: &str) -> (r: Result<
    Vec<BitgetAccountDelta>,
    ExchangeError,
>)
    ensures
        match r {
            Ok(v) => account_deltas_of(account_delta_views(rows@), upnl@) == Ok::<
                Seq<AccountDeltaView>,
                ErrorView,
            >(delta_views(v@)),
            Err(e) => account_deltas_of(account_delta_views(rows@), upnl@) == Err::<
                Seq<AccountDeltaView>,
                ErrorView,
            >(e@),
        },
{
    let n = rows.len();
    let mut out: Vec<BitgetAccountDelta> = Vec::new();
    let mut i: usize = 0;
    assert(account_delta_views(rows@).subrange(0, 0) =~= Seq::<RawAccountDeltaView>::empty());
    assert(delta_views(out@) =~= Seq::<AccountDeltaView>::empty());
    while i < n
        invariant
            n == rows@.len(),
            i <= n,
            account_deltas_of(account_delta_views(rows@).subrange(0, i as int), upnl@) == Ok::<
                Seq<AccountDeltaView>,
                ErrorView,
            >(delta_views(out@)),
        decreases n - i,
    {
        let ghost all = account_delta_views(rows@);
        let ghost next = all.subrange(0, i + 1);
        assert(next.drop_last() =~= all.subrange(0, i as int));
        assert(next.last() == rows@[i as int]@);
        match account_delta(&rows[i], upnl) {
            Ok(d) => {
                let ghost before = delta_views(out@);
                out.push(d);
                assert(delta_views(out@) =~= before.push(d@));
            },
            Err(e) => {
                proof {
                    lemma_deltas_error_prefix(all, upnl@, i + 1);
                }
                return Err(e);
            },
        }
        i = i + 1;
    }
    assert(account_delta_views(rows@).subrange(0, n as int) =~= account_delta_views(rows@));
    Ok(out)
}

/// The account state of the aggregate row: its unrealised PnL, the coin
/// rows, then the equity and margin figures, each required.
pub open spec fn account_update_of(action: Seq<char>, row: RawAccountStateView) -> Result<
    AccountUpdateView,
    ErrorView,
> {
    match required_number_field(row.unrealized_pnl, "account.unrealisedPnL"@) {
        Err(e) => Err(e),
        Ok(upnl) => match account_deltas_of(row.coins, upnl) {
            Err(e) => Err(e),
            Ok(accounts) => match required_number_field(row.total_equity, "account.totalEquity"@) {
                Err(e) => Err(e),
                Ok(total) => match required_number_field(
                    row.effective_equity,
                    "account.effEquity"@,
                ) {
                    Err(e) => Err(e),
                    Ok(effective) => match required_number_field(row.imr, "account.imr"@) {
                        Err(e) => Err(e),
                        Ok(imr) => match required_number_field(row.mmr, "account.mmr"@) {
                            Err(e) => Err(e),
                            Ok(mmr) => match required_number_field(
                                row.margin_ratio,
                                "account.mgnRatio"@,
                            ) {
                                Err(e) => Err(e),
                                Ok(ratio) => match required_number_field(
                                    row.position_margin_ratio,
                                    "account.positionMgnRatio"@,
                                ) {
                                    Err(e) => Err(e),
                                    Ok(position_ratio) => Ok(
                                        AccountUpdateView {
                                            action,
                                            total_equity: total,
                                            effective_equity: effective,
                                            initial_margin: imr,
                                            maintenance_margin: mmr,
                                            margin_ratio: ratio,
                                            position_margin_ratio: position_ratio,
                                            unrealized_pnl: upnl,
                                            accounts,
                                        },
                                    ),
                                },
                            },
                        },
                    },
                },
            },
        },
    }
}

pub fn account_update(action: String, row: &RawAccountState) -> (r: Result<
    BitgetAccountUpdate,
    ExchangeError,
>)
    ensures
        match r {
            Ok(u) => account_update_of(action@, row@) == Ok::<AccountUpdateView, ErrorView>(u@),
            Err(e) => account_update_of(action@, row@) == Err::<AccountUpdateView, ErrorView>(e@),
        },
{
    let upnl = parse_required_number(row.unrealized_pnl.as_str(), "account.unrealisedPnL")?;
    let accounts = account_deltas(&row.coins, upnl.as_str())?;
    let total_equity = parse_required_number(row.total_equity.as_str(), "account.totalEquity")?;
    let effective_equity = parse_required_number(
        row.effective_equity.as_str(),
        "account.effEquity",
    )?;
    let initial_margin = parse_required_number(row.imr.as_str(), "account.imr")?;
    let maintenance_margin = parse_required_number(row.mmr.as_str(), "account.mmr")?;
    let margin_ratio = parse_required_number(row.margin_ratio.as_str(), "account.mgnRatio")?;
    let position_margin_ratio = parse_required_number(
        row.position_margin_ratio.as_str(),
        "account.positionMgnRatio",
    )?;
    Ok(
        BitgetAccountUpdate {
            action,
            total_equity,
            effective_equity,
            initial_margin,
            maintenance_margin,
            margin_ratio,
            position_margin_ratio,
            unrealized_pnl: upnl,
            accounts,
        },
    )
}

// ---------------------------------------------------------------------------
// Order frames
// ---------------------------------------------------------------------------

#[derive(Debug)]
pub struct BitgetOrderUpdate {
    pub client_order_id: String,
    pub live_state: LiveOrderState,
    pub category: String,
    pub hold_mode: String,
    pub hold_side: String,
    pub trade_side: String,
    pub updated_time_ms: i64,
    pub cancel_reason: Option<String>,
    pub total_profit: String,
    pub order: OrderInfo,
}

pub ghost struct OrderUpdateView {
    pub client_order_id: Seq<char>,
    pub live_state: LiveOrderState,
    pub category: Seq<char>,
    pub hold_mode: Seq<char>,
    pub hold_side: Seq<char>,
    pub trade_side: Seq<char>,
    pub updated_time_ms: i64,
    pub cancel_reason: Option<Seq<char>>,
    pub total_profit: Seq<char>,
    pub order: OrderInfoView,
}

impl View for BitgetOrderUpdate {
    type V = OrderUpdateView;

    open spec fn view(&self) -> OrderUpdateView {
        OrderUpdateView {
            client_order_id: self.client_order_id@,
            live_state: self.live_state,
            category: self.category@,
            hold_mode: self.hold_mode@,
            hold_side: self.hold_side@,
            trade_side: self.trade_side@,
            updated_time_ms: self.updated_time_ms,
            cancel_reason: text_of(self.cancel_reason),
            total_profit: self.total_profit@,
            order: order_info_view(self.order),
        }
    }
}

/// The fee amounts of the fee rows, in order; each must read.
pub open spec fn fees_of(rows: Seq<RawFeeDetailView>) -> Result<Seq<Seq<char>>, ErrorView>
    decreases rows.len(),
{
    if rows.len() == 0 {
        Ok(Seq::empty())
    } else {
        match fees_of(rows.drop_last()) {
            Err(e) => Err(e),
            Ok(prev) => match number_field(rows.last().fee, "order.feeDetail.fee"@) {
                Err(e) => Err(e),
                Ok(f) => Ok(prev.push(f)),
            },
        }
    }
}

proof fn lemma_fees_error_prefix(rows: Seq<RawFeeDetailView>, k: int)
    requires
        0 <= k <= rows.len(),
        fees_of(rows.subrange(0, k)) is Err,
    ensures
        fees_of(rows) == fees_of(rows.subrange(0, k)),
    decreases rows.len(),
{
    if k < rows.len() {
        assert(rows.drop_last().subrange(0, k) =~= rows.subrange(0, k));
        lemma_fees_error_prefix(rows.drop_last(), k);
    } else {
        assert(rows.subrange(0, k) =~= rows);
    }
}

pub open spec fn string_views(v: Seq<String>) -> Seq<Seq<char>> {
    v.map_values(|f: String| f@)
}

pub fn fee_amounts(rows: &Vec<RawFeeDetail>) -> (r: Result<Vec<String>, ExchangeError>)
    ensures
        match r {
            Ok(v) => fees_of(fee_views(rows@)) == Ok::<Seq<Seq<char>>, ErrorView>(string_views(v@)),
            Err(e) => fees_of(fee_views(rows@)) == Err::<Seq<Seq<char>>, ErrorView>(e@),
        },
{
    let n = rows.len();
    let mut out: Vec<String> = Vec::new();
    let mut i: usize = 0;
    assert(fee_views(rows@).subrange(0, 0) =~= Seq::<RawFeeDetailView>::empty());
    assert(string_views(out@) =~= Seq::<Seq<char>>::empty());
    while i < n
        invariant
            n == rows@.len(),
            i <= n,
            fees_of(fee_views(rows@).subrange(0, i as int)) == Ok::<Seq<Seq<char>>, ErrorView>(
                string_views(out@),
            ),
        decreases n - i,
    {
        let ghost all = fee_views(rows@);
        let ghost next = all.subrange(0, i + 1);
        assert(next.drop_last() =~= all.subrange(0, i as int));
        assert(next.last() == rows@[i as int]@);
        match parse_number(rows[i].fee.as_str(), "order.feeDetail.fee") {
            Ok(f) => {
                let ghost before = string_views(out@);
                out.push(f);
                assert(string_views(out@) =~= before.push(f@));
            },
            Err(e) => {
                proof {
                    lemma_fees_error_prefix(all, i + 1);
                }
                return Err(e);
            },
        }
        i = i + 1;
    }
    assert(fee_views(rows@).subrange(0, n as int) =~= fee_views(rows@));
    Ok(out)
}

/// The first fee coin that is not blank, trimmed.
pub open spec fn first_fee_currency_of(rows: Seq<RawFeeDetailView>) -> Option<Seq<char>>
    decreases rows.len(),
{
    if rows.len() == 0 {
        None
    } else {
        match non_empty_text(rows[0].fee_coin) {
            Some(c) => Some(c),
            None => first_fee_currency_of(rows.drop_first()),
        }
    }
}

pub fn first_fee_currency(rows: &Vec<RawFeeDetail>) -> (r: Option<String>)
    ensures
        match r {
            Some(c) => first_fee_currency_of(fee_views(rows@)) == Some(c@),
            None => first_fee_currency_of(fee_views(rows@)).is_none(),
        },
{
    let n = rows.len();
    let mut i: usize = 0;
    assert(fee_views(rows@).subrange(0, n as int) =~= fee_views(rows@));
    while i < n
        invariant
            n == rows@.len(),
            i <= n,
            first_fee_currency_of(fee_views(rows@)) == first_fee_currency_of(
                fee_views(rows@).subrange(i as int, n as int),
            ),
        decreases n - i,
    {
        let ghost rest = fee_views(rows@).subrange(i as int, n as int);
        assert(rest[0] == rows@[i as int]@);
        assert(rest.drop_first() =~= fee_views(rows@).subrange(i + 1, n as int));
        match non_empty_string(rows[i].fee_coin.as_str()) {
            Some(c) => {
                return Some(c);
            },
            None => {},
        }
        i = i + 1;
    }
    None
}

/// A YES/NO reduce-only flag in any case and surrounded by white space;
/// blank is unknown. Anything else is refused with the raw text.
pub open spec fn reduce_only_flag_of(raw: Seq<char>) -> Result<Option<bool>, ErrorView> {
    let u = upper(trim(raw));
    if u == "YES"@ {
        Ok(Some(true))
    } else if u == "NO"@ {
        Ok(Some(false))
    } else if u.len() == 0 {
        Ok(None)
    } else {
        Err(ErrorView::Parse("bitget order.reduceOnly invalid: "@ + raw))
    }
}

pub fn reduce_only_flag(raw: &str) -> (r: Result<Option<bool>, ExchangeError>)
    ensures
        match r {
            Ok(b) => reduce_only_flag_of(raw@) == Ok::<Option<bool>, ErrorView>(b),
            Err(e) => reduce_only_flag_of(raw@) == Err::<Option<bool>, ErrorView>(e@),
        },
{
    let t = trimmed(raw);
    let u = to_upper(t.as_str());
    if str_eq(u.as_str(), "YES") {
        Ok(Some(true))
    } else if str_eq(u.as_str(), "NO") {
        Ok(Some(false))
    } else if u.unicode_len() == 0 {
        Ok(None)
    } else {
        Err(ExchangeError::Parse(msg2("bitget order.reduceOnly invalid: ", raw)))
    }
}

/// What an order frame says of the order's state, read in the order the
/// frame is checked.
pub ghost struct OrderHeadView {
    pub category: Seq<char>,
    pub hold_mode: Seq<char>,
    pub hold_side: Seq<char>,
    pub trade_side: Seq<char>,
    pub filled_quantity: Seq<char>,
    pub status: OrderStatus,
    pub created_at_ms: i64,
    pub updated_time_ms: i64,
    pub reduce_only: Option<bool>,
}

/// The category, position fields (blank allowed on spot), filled quantity,
/// status, creation and update times, and reduce-only flag of an order row.
pub open spec fn order_head_of(row: RawOrderUpdateView) -> Result<OrderHeadView, ErrorView> {
    match known_category_of(row.category, "order.category"@) {
        Err(e) => Err(e),
        Ok(category) => {
            let spot = category == "SPOT"@;
            match known_value_of(row.hold_mode, hold_modes(), spot, "holdMode"@) {
                Err(e) => Err(e),
                Ok(hold_mode) => match known_value_of(
                    row.hold_side,
                    hold_sides(),
                    spot,
                    "holdSide/posSide"@,
                ) {
                    Err(e) => Err(e),
                    Ok(hold_side) => match known_value_of(
                        row.trade_side,
                        trade_sides(),
                        spot,
                        "tradeSide"@,
                    ) {
                        Err(e) => Err(e),
                        Ok(trade_side) => match required_number_field(
                            row.acc_filled_size,
                            "order.cumExecQty"@,
                        ) {
                            Err(e) => Err(e),
                            Ok(filled) => match order_status_of(row.status) {
                                Err(e) => Err(e),
                                Ok(status) => match i64_field(
                                    row.created_time,
                                    "order.createdTime"@,
                                ) {
                                    Err(e) => Err(e),
                                    Ok(created) => match event_time_of(created) {
                                        Err(e) => Err(e),
                                        Ok(created_at) => match i64_field(
                                            row.updated_time,
                                            "order.updatedTime"@,
                                        ) {
                                            Err(e) => Err(e),
                                            Ok(updated) => match reduce_only_flag_of(
                                                row.reduce_only,
                                            ) {
                                                Err(e) => Err(e),
                                                Ok(reduce_only) => Ok(
                                                    OrderHeadView {
                                                        category,
                                                        hold_mode,
                                                        hold_side,
                                                        trade_side,
                                                        filled_quantity: filled,
                                                        status,
                                                        created_at_ms: created_at,
                                                        updated_time_ms: updated,
                                                        reduce_only,
                                                    },
                                                ),
                                            },
                                        },
                                    },
                                },
                            },
                        },
                    },
                },
            }
        },
    }
}

/// The order an order row describes, once its head has read.
pub open spec fn order_info_of(row: RawOrderUpdateView, head: OrderHeadView) -> Result<
    OrderInfoView,
    ErrorView,
> {
    match text_field(row.order_id, "order.orderId"@) {
        Err(e) => Err(e),
        Ok(order_id) => match text_field(row.symbol, "order.symbol"@) {
            Err(e) => Err(e),
            Ok(symbol) => match order_side_of(row.side) {
                Err(e) => Err(e),
                Ok(side) => match order_type_of(row.order_type, row.force) {
                    Err(e) => Err(e),
                    Ok(order_type) => match positive_number_field(row.qty, "order.qty"@) {
                        Err(e) => Err(e),
                        Ok(quantity) => match number_field(row.price, "order.price"@) {
                            Err(e) => Err(e),
                            Ok(price) => match number_field(row.price_avg, "order.avgPrice"@) {
                                Err(e) => Err(e),
                                Ok(filled_price) => match fees_of(row.fee_detail) {
                                    Err(e) => Err(e),
                                    Ok(fees) => Ok(
                                        OrderInfoView {
                                            venue_time_in_force: Some(row.force),
                                            client_order_id: client_id_of(row.client_oid),
                                            reduce_only: head.reduce_only,
                                            order_id,
                                            symbol: strip_quote(symbol),
                                            exchange: "bitget"@,
                                            side,
                                            order_type,
                                            status: head.status,
                                            quantity,
                                            price,
                                            filled_quantity: head.filled_quantity,
                                            filled_price,
                                            fees,
                                            execution_style: None,
                                            created_at_ms: head.created_at_ms,
                                        },
                                    ),
                                },
                            },
                        },
                    },
                },
            },
        },
    }
}

/// An order frame row: its head, its order, then its total profit.
pub open spec fn order_update_of(row: RawOrderUpdateView) -> Result<OrderUpdateView, ErrorView> {
    match order_head_of(row) {
        Err(e) => Err(e),
        Ok(head) => match order_info_of(row, head) {
            Err(e) => Err(e),
            Ok(order) => match required_number_field(row.total_profit, "order.totalProfit"@) {
                Err(e) => Err(e),
                Ok(total_profit) => Ok(
                    OrderUpdateView {
                        client_order_id: row.client_oid,
                        live_state: live_state_of(head.status),
                        category: head.category,
                        hold_mode: head.hold_mode,
                        hold_side: head.hold_side,
                        trade_side: head.trade_side,
                        updated_time_ms: head.updated_time_ms,
                        cancel_reason: non_empty_text(row.cancel_reason),
                        total_profit,
                        order,
                    },
                ),
            },
        },
    }
}

struct OrderHead {
    category: String,
    hold_mode: String,
    hold_side: String,
    trade_side: String,
    filled_quantity: String,
    status: OrderStatus,
    created_at_ms: i64,
    updated_time_ms: i64,
    reduce_only: Option<bool>,
}

spec fn head_view(h: OrderHead) -> OrderHeadView {
    OrderHeadView {
        category: h.category@,
        hold_mode: h.hold_mode@,
        hold_side: h.hold_side@,
        trade_side: h.trade_side@,
        filled_quantity: h.filled_quantity@,
        status: h.status,
        created_at_ms: h.created_at_ms,
        updated_time_ms: h.updated_time_ms,
        reduce_only: h.reduce_only,
    }
}

fn order_head(row: &RawOrderUpdate) -> (r: Result<OrderHead, ExchangeError>)
    ensures
        match r {
            Ok(h) => order_head_of(row@) == Ok::<OrderHeadView, ErrorView>(head_view(h)),
            Err(e) => order_head_of(row@) == Err::<OrderHeadView, ErrorView>(e@),
        },
{
    let category = known_category(row.category.as_str(), "order.category")?;
    let spot = str_eq(category.as_str(), "SPOT");
    let hold_mode = known_hold_mode(row.hold_mode.as_str(), spot)?;
    let hold_side = known_hold_side(row.hold_side.as_str(), spot)?;
    let trade_side = known_trade_side(row.trade_side.as_str(), spot)?;
    let filled_quantity = parse_required_number(row.acc_filled_size.as_str(), "order.cumExecQty")?;
    let status = order_status(row.status.as_str())?;
    let created = parse_required_i64(row.created_time.as_str(), "order.createdTime")?;
    let created_at_ms = event_time(created)?;
    let updated_time_ms = parse_required_i64(row.updated_time.as_str(), "order.updatedTime")?;
    let reduce_only = reduce_only_flag(row.reduce_only.as_str())?;
    Ok(
        OrderHead {
            category,
            hold_mode,
            hold_side,
            trade_side,
            filled_quantity,
            status,
            created_at_ms,
            updated_time_ms,
            reduce_only,
        },
    )
}

fn order_info(row: &RawOrderUpdate, head: &OrderHead) -> (r: Result<OrderInfo, ExchangeError>)
    ensures
        match r {
            Ok(o) => order_info_of(row@, head_view(*head)) == Ok::<OrderInfoView, ErrorView>(
                order_info_view(o),
            ),
            Err(e) => order_info_of(row@, head_view(*head)) == Err::<OrderInfoView, ErrorView>(e@),
        },
{
    let order_id = required_text(row.order_id.as_str(), "order.orderId")?;
    let symbol = required_text(row.symbol.as_str(), "order.symbol")?;
    let side = order_side(row.side.as_str())?;
    let order_type = order_type(row.order_type.as_str(), row.force.as_str())?;
    let quantity = parse_positive_number(row.qty.as_str(), "order.qty")?;
    let price = parse_number(row.price.as_str(), "order.price")?;
    let filled_price = parse_number(row.price_avg.as_str(), "order.avgPrice")?;
    let fees = fee_amounts(&row.fee_detail)?;
    let o = OrderInfo {
        venue_time_in_force: Some(row.force.clone()),
        client_order_id: client_order_id_from_str(row.client_oid.as_str()),
        reduce_only: head.reduce_only,
        order_id,
        symbol: strip_common_suffixes(symbol.as_str()),
        exchange: "bitget".to_owned(),
        side,
        order_type,
        status: head.status,
        quantity,
        price,
        filled_quantity: head.filled_quantity.clone(),
        filled_price,
        fees,
        execution_style: None,
        created_at_ms: head.created_at_ms,
    };
    assert(order_info_view(o).fees == string_views(fees@));
    assert(order_info_view(o).client_order_id == client_id_of(row.client_oid@));
    Ok(o)
}

pub fn order_update(row: &RawOrderUpdate) -> (r: Result<BitgetOrderUpdate, ExchangeError>)
    ensures
        match r {
            Ok(u) => order_update_of(row@) == Ok::<OrderUpdateView, ErrorView>(u@),
            Err(e) => order_update_of(row@) == Err::<OrderUpdateView, ErrorView>(e@),
        },
{
    let head = order_head(row)?;
    let order = order_info(row, &head)?;
    let total_profit = parse_required_number(row.total_profit.as_str(), "order.totalProfit")?;
    let u = BitgetOrderUpdate {
        client_order_id: row.client_oid.clone(),
        live_state: live_state(head.status),
        category: head.category,
        hold_mode: head.hold_mode,
        hold_side: head.hold_side,
        trade_side: head.trade_side,
        updated_time_ms: head.updated_time_ms,
        cancel_reason: non_empty_string(row.cancel_reason.as_str()),
        total_profit,
        order,
    };
    assert(text_of(u.cancel_reason) == non_empty_text(row.cancel_reason@));
    Ok(u)
}

// ---------------------------------------------------------------------------
// Position frames
// ---------------------------------------------------------------------------

#[derive(Debug)]
pub struct BitgetPositionDelta {
    pub symbol: String,
    pub margin_coin: String,
    pub margin_size: String,
    pub margin_mode: String,
    pub hold_mode: String,
    pub position_status: String,
    pub side: String,
    pub size: String,
    pub available: String,
    pub frozen: String,
    pub entry_price: String,
    pub leverage: String,
    pub unrealized_pnl: String,
    pub liquidation_price: Option<String>,
    pub maintenance_margin_rate: String,
    pub mark_price: String,
    pub updated_time_ms: i64,
}

pub ghost struct PositionIdentityView {
    pub symbol: Seq<char>,
    pub margin_coin: Seq<char>,
    pub margin_size: Seq<char>,
    pub margin_mode: Seq<char>,
    pub hold_mode: Seq<char>,
    pub position_status: Seq<char>,
    pub side: Seq<char>,
}

pub ghost struct PositionFiguresView {
    pub size: Seq<char>,
    pub available: Seq<char>,
    pub frozen: Seq<char>,
    pub entry_price: Seq<char>,
    pub leverage: Seq<char>,
    pub unrealized_pnl: Seq<char>,
    pub liquidation_price: Option<Seq<char>>,
    pub maintenance_margin_rate: Seq<char>,
    pub mark_price: Seq<char>,
    pub updated_time_ms: i64,
}

pub ghost struct PositionDeltaView {
    pub identity: PositionIdentityView,
    pub figures: PositionFiguresView,
}

impl View for BitgetPositionDelta {
    type V = PositionDeltaView;

    open spec fn view(&self) -> PositionDeltaView {
        PositionDeltaView {
            identity: PositionIdentityView {
                symbol: self.symbol@,
                margin_coin: self.margin_coin@,
                margin_size: self.margin_size@,
                margin_mode: self.margin_mode@,
                hold_mode: self.hold_mode@,
                position_status: self.position_status@,
                side: self.side@,
            },
            figures: PositionFiguresView {
                size: self.size@,
                available: self.available@,
                frozen: self.frozen@,
                entry_price: self.entry_price@,
                leverage: self.leverage@,
                unrealized_pnl: self.unrealized_pnl@,
                liquidation_price: text_of(self.liquidation_price),
                maintenance_margin_rate: self.maintenance_margin_rate@,
                mark_price: self.mark_price@,
                updated_time_ms: self.updated_time_ms,
            },
        }
    }
}

#[derive(Debug)]
pub struct BitgetPositionUpdate {
    pub action: String,
    pub positions: Vec<BitgetPositionDelta>,
}

pub ghost struct PositionUpdateView {
    pub action: Seq<char>,
    pub positions: Seq<PositionDeltaView>,
}

impl View for BitgetPositionUpdate {
    type V = PositionUpdateView;

    open spec fn view(&self) -> PositionUpdateView {
        PositionUpdateView { action: self.action@, positions: position_delta_views(self.positions@) }
    }
}

/// The identity of a position row: its symbol, margin coin and size, and
/// its mode, status and side, which must be known values.
pub open spec fn position_identity_of(row: RawPositionDeltaView) -> Result<
    PositionIdentityView,
    ErrorView,
> {
    match text_field(row.symbol, "position.symbol"@) {
        Err(e) => Err(e),
        Ok(symbol) => match text_field(row.margin_coin, "position.marginCoin"@) {
            Err(e) => Err(e),
            Ok(margin_coin) => match required_number_field(
                row.margin_size,
                "position.marginSize"@,
            ) {
                Err(e) => Err(e),
                Ok(margin_size) => match known_value_of(
                    row.margin_mode,
                    margin_modes(),
                    false,
                    "marginMode"@,
                ) {
                    Err(e) => Err(e),
                    Ok(margin_mode) => match known_value_of(
                        row.hold_mode,
                        hold_modes(),
                        false,
                        "holdMode"@,
                    ) {
                        Err(e) => Err(e),
                        Ok(hold_mode) => match known_value_of(
                            row.position_status,
                            position_statuses(),
                            false,
                            "positionStatus"@,
                        ) {
                            Err(e) => Err(e),
                            Ok(position_status) => match known_value_of(
                                row.hold_side,
                                hold_sides(),
                                false,
                                "holdSide/posSide"@,
                            ) {
                                Err(e) => Err(e),
                                Ok(side) => Ok(
                                    PositionIdentityView {
                                        symbol: strip_quote(symbol),
                                        margin_coin,
                                        margin_size,
                                        margin_mode,
                                        hold_mode,
                                        position_status,
                                        side,
                                    },
                                ),
                            },
                        },
                    },
                },
            },
        },
    }
}

/// The figures of a position row. The maintenance margin rate may be blank
/// (an ended position sends it empty), and a liquidation price that is
/// blank or not above zero is absent.
pub open spec fn position_figures_of(row: RawPositionDeltaView) -> Result<
    PositionFiguresView,
    ErrorView,
> {
    match required_number_field(row.qty, "position.size"@) {
        Err(e) => Err(e),
        Ok(size) => match required_number_field(row.available, "position.available"@) {
            Err(e) => Err(e),
            Ok(available) => match required_number_field(row.frozen, "position.frozen"@) {
                Err(e) => Err(e),
                Ok(frozen) => match required_number_field(
                    row.open_price_avg,
                    "position.avgPrice"@,
                ) {
                    Err(e) => Err(e),
                    Ok(entry_price) => match positive_number_field(
                        row.leverage,
                        "position.leverage"@,
                    ) {
                        Err(e) => Err(e),
                        Ok(leverage) => match required_number_field(
                            row.unrealized_pnl,
                            "position.unrealisedPnl"@,
                        ) {
                            Err(e) => Err(e),
                            Ok(unrealized_pnl) => match positive_option_field(
                                row.liquidation_price,
                                "position.liqPrice"@,
                            ) {
                                Err(e) => Err(e),
                                Ok(liquidation_price) => match number_field(
                                    row.keep_margin_rate,
                                    "position.mmr"@,
                                ) {
                                    Err(e) => Err(e),
                                    Ok(mmr) => match positive_number_field(
                                        row.mark_price,
                                        "position.markPrice"@,
                                    ) {
                                        Err(e) => Err(e),
                                        Ok(mark_price) => match i64_field(
                                            row.updated_time,
                                            "position.updatedTime"@,
                                        ) {
                                            Err(e) => Err(e),
                                            Ok(updated) => Ok(
                                                PositionFiguresView {
                                                    size,
                                                    available,
                                                    frozen,
                                                    entry_price,
                                                    leverage,
                                                    unrealized_pnl,
                                                    liquidation_price,
                                                    maintenance_margin_rate: mmr,
                                                    mark_price,
                                                    updated_time_ms: updated,
                                                },
                                            ),
                                        },
                                    },
                                },
                            },
                        },
                    },
                },
            },
        },
    }
}

pub open spec fn position_delta_of(row: RawPositionDeltaView) -> Result<PositionDeltaView, ErrorView> {
    match position_identity_of(row) {
        Err(e) => Err(e),
        Ok(identity) => match position_figures_of(row) {
            Err(e) => Err(e),
            Ok(figures) => Ok(PositionDeltaView { identity, figures }),
        },
    }
}

pub fn position_delta(row: &RawPositionDelta) -> (r: Result<BitgetPositionDelta, ExchangeError>)
    ensures
        match r {
            Ok(p) => position_delta_of(row@) == Ok::<PositionDeltaView, ErrorView>(p@),
            Err(e) => position_delta_of(row@) == Err::<PositionDeltaView, ErrorView>(e@),
        },
{
    let symbol = required_text(row.symbol.as_str(), "position.symbol")?;
    let margin_coin = required_text(row.margin_coin.as_str(), "position.marginCoin")?;
    let margin_size = parse_required_number(row.margin_size.as_str(), "position.marginSize")?;
    let margin_mode = known_margin_mode(row.margin_mode.as_str())?;
    let hold_mode = known_hold_mode(row.hold_mode.as_str(), false)?;
    let position_status = known_position_status(row.position_status.as_str())?;
    let side = known_hold_side(row.hold_side.as_str(), false)?;
    let size = parse_required_number(row.qty.as_str(), "position.size")?;
    let available = parse_required_number(row.available.as_str(), "position.available")?;
    let frozen = parse_required_number(row.frozen.as_str(), "position.frozen")?;
    let entry_price = parse_required_number(row.open_price_avg.as_str(), "position.avgPrice")?;
    let leverage = parse_positive_number(row.leverage.as_str(), "position.leverage")?;
    let unrealized_pnl = parse_required_number(
        row.unrealized_pnl.as_str(),
        "position.unrealisedPnl",
    )?;
    let liquidation_price = parse_positive_option(
        row.liquidation_price.as_str(),
        "position.liqPrice",
    )?;
    let maintenance_margin_rate = parse_number(row.keep_margin_rate.as_str(), "position.mmr")?;
    let mark_price = parse_positive_number(row.mark_price.as_str(), "position.markPrice")?;
    let updated_time_ms = parse_required_i64(row.updated_time.as_str(), "position.updatedTime")?;
    let p = BitgetPositionDelta {
        symbol: strip_common_suffixes(symbol.as_str()),
        margin_coin,
        margin_size,
        margin_mode,
        hold_mode,
        position_status,
        side,
        size,
        available,
        frozen,
        entry_price,
        leverage,
        unrealized_pnl,
        liquidation_price,
        maintenance_margin_rate,
        mark_price,
        updated_time_ms,
    };
    assert(p@.figures.liquidation_price == text_of(p.liquidation_price));
    Ok(p)
}

// ---------------------------------------------------------------------------
// Fill frames
// ---------------------------------------------------------------------------

#[derive(Debug)]
pub struct BitgetFillUpdate {
    pub order_id: String,
    pub client_order_id: String,
    pub exec_id: String,
    pub category: String,
    pub symbol: String,
    pub side: String,
    pub hold_side: String,
    pub trade_side: String,
    pub price: String,
    pub size: String,
    pub value: String,
    pub realized_pnl: String,
    /// The fee amounts charged, one per fee row; the fill's fee is their sum.
    pub fees: Vec<String>,
    pub fee_currency: Option<String>,
    pub trade_time_ms: i64,
    pub updated_time_ms: i64,
    pub is_rpi: Option<bool>,
}

pub ghost struct FillView {
    pub order_id: Seq<char>,
    pub client_order_id: Seq<char>,
    pub exec_id: Seq<char>,
    pub category: Seq<char>,
    pub symbol: Seq<char>,
    pub side: Seq<char>,
    pub hold_side: Seq<char>,
    pub trade_side: Seq<char>,
    pub price: Seq<char>,
    pub size: Seq<char>,
    pub value: Seq<char>,
    pub realized_pnl: Seq<char>,
    pub fees: Seq<Seq<char>>,
    pub fee_currency: Option<Seq<char>>,
    pub trade_time_ms: i64,
    pub updated_time_ms: i64,
    pub is_rpi: Option<bool>,
}

impl View for BitgetFillUpdate {
    type V = FillView;

    open spec fn view(&self) -> FillView {
        FillView {
            order_id: self.order_id@,
            client_order_id: self.client_order_id@,
            exec_id: self.exec_id@,
            category: self.category@,
            symbol: self.symbol@,
            side: self.side@,
            hold_side: self.hold_side@,
            trade_side: self.trade_side@,
            price: self.price@,
            size: self.size@,
            value: self.value@,
            realized_pnl: self.realized_pnl@,
            fees: string_views(self.fees@),
            fee_currency: text_of(self.fee_currency),
            trade_time_ms: self.trade_time_ms,
            updated_time_ms: self.updated_time_ms,
            is_rpi: self.is_rpi,
        }
    }
}

/// A fill row: its category and fees first, then its identity, sides,
/// amounts, times and RPI flag. Position sides may be blank on spot.
pub open spec fn fill_update_of(row: RawFillUpdateView) -> Result<FillView, ErrorView> {
    match known_category_of(row.category, "fill.category"@) {
        Err(e) => Err(e),
        Ok(category) => {
            let spot = category == "SPOT"@;
            match fees_of(row.fee_detail) {
                Err(e) => Err(e),
                Ok(fees) => match text_field(row.order_id, "fill.orderId"@) {
                    Err(e) => Err(e),
                    Ok(order_id) => match text_field(row.exec_id, "fill.execId"@) {
                        Err(e) => Err(e),
                        Ok(exec_id) => match text_field(row.symbol, "fill.symbol"@) {
                            Err(e) => Err(e),
                            Ok(symbol) => match known_value_of(
                                row.side,
                                sides(),
                                false,
                                "fill.side"@,
                            ) {
                                Err(e) => Err(e),
                                Ok(side) => match known_value_of(
                                    row.hold_side,
                                    hold_sides(),
                                    spot,
                                    "holdSide/posSide"@,
                                ) {
                                    Err(e) => Err(e),
                                    Ok(hold_side) => match known_value_of(
                                        row.trade_side,
                                        trade_sides(),
                                        spot,
                                        "tradeSide"@,
                                    ) {
                                        Err(e) => Err(e),
                                        Ok(trade_side) => match fill_amounts_of(row) {
                                            Err(e) => Err(e),
                                            Ok(a) => Ok(
                                                FillView {
                                                    order_id,
                                                    client_order_id: row.client_oid,
                                                    exec_id,
                                                    category,
                                                    symbol: strip_quote(symbol),
                                                    side,
                                                    hold_side,
                                                    trade_side,
                                                    price: a.price,
                                                    size: a.size,
                                                    value: a.value,
                                                    realized_pnl: a.realized_pnl,
                                                    fees,
                                                    fee_currency: first_fee_currency_of(
                                                        row.fee_detail,
                                                    ),
                                                    trade_time_ms: a.trade_time_ms,
                                                    updated_time_ms: a.updated_time_ms,
                                                    is_rpi: a.is_rpi,
                                                },
                                            ),
                                        },
                                    },
                                },
                            },
                        },
                    },
                },
            }
        },
    }
}

pub ghost struct FillAmountsView {
    pub price: Seq<char>,
    pub size: Seq<char>,
    pub value: Seq<char>,
    pub realized_pnl: Seq<char>,
    pub trade_time_ms: i64,
    pub updated_time_ms: i64,
    pub is_rpi: Option<bool>,
}

/// The execution price, quantity and value (each above zero), the realised
/// PnL, the times and the RPI flag of a fill row.
pub open spec fn fill_amounts_of(row: RawFillUpdateView) -> Result<FillAmountsView, ErrorView> {
    match positive_number_field(row.price, "fill.execPrice"@) {
        Err(e) => Err(e),
        Ok(price) => match positive_number_field(row.size, "fill.execQty"@) {
            Err(e) => Err(e),
            Ok(size) => match positive_number_field(row.value, "fill.execValue"@) {
                Err(e) => Err(e),
                Ok(value) => match required_number_field(row.realized_pnl, "fill.execPnl"@) {
                    Err(e) => Err(e),
                    Ok(pnl) => match i64_field(row.trade_time, "fill.execTime"@) {
                        Err(e) => Err(e),
                        Ok(trade_time) => match i64_field(row.updated_time, "fill.updatedTime"@) {
                            Err(e) => Err(e),
                            Ok(updated) => match optional_flag_of(row.is_rpi, "fill.isRPI"@) {
                                Err(e) => Err(e),
                                Ok(is_rpi) => Ok(
                                    FillAmountsView {
                                        price,
                                        size,
                                        value,
                                        realized_pnl: pnl,
                                        trade_time_ms: trade_time,
                                        updated_time_ms: updated,
                                        is_rpi,
                                    },
                                ),
                            },
                        },
                    },
                },
            },
        },
    }
}

pub fn fill_update(row: &RawFillUpdate) -> (r: Result<BitgetFillUpdate, ExchangeError>)
    ensures
        match r {
            Ok(f) => fill_update_of(row@) == Ok::<FillView, ErrorView>(f@),
            Err(e) => fill_update_of(row@) == Err::<FillView, ErrorView>(e@),
        },
{
    let category = known_category(row.category.as_str(), "fill.category")?;
    let spot = str_eq(category.as_str(), "SPOT");
    let fees = fee_amounts(&row.fee_detail)?;
    let fee_currency = first_fee_currency(&row.fee_detail);
    let order_id = required_text(row.order_id.as_str(), "fill.orderId")?;
    let exec_id = required_text(row.exec_id.as_str(), "fill.execId")?;
    let symbol = required_text(row.symbol.as_str(), "fill.symbol")?;
    let side = known_side(row.side.as_str(), "fill.side")?;
    let hold_side = known_hold_side(row.hold_side.as_str(), spot)?;
    let trade_side = known_trade_side(row.trade_side.as_str(), spot)?;
    let price = parse_positive_number(row.price.as_str(), "fill.execPrice")?;
    let size = parse_positive_number(row.size.as_str(), "fill.execQty")?;
    let value = parse_positive_number(row.value.as_str(), "fill.execValue")?;
    let realized_pnl = parse_required_number(row.realized_pnl.as_str(), "fill.execPnl")?;
    let trade_time_ms = parse_required_i64(row.trade_time.as_str(), "fill.execTime")?;
    let updated_time_ms = parse_required_i64(row.updated_time.as_str(), "fill.updatedTime")?;
    let is_rpi = optional_flag(&row.is_rpi, "fill.isRPI")?;
    let f = BitgetFillUpdate {
        order_id,
        client_order_id: row.client_oid.clone(),
        exec_id,
        category,
        symbol: strip_common_suffixes(symbol.as_str()),
        side,
        hold_side,
        trade_side,
        price,
        size,
        value,
        realized_pnl,
        fees,
        fee_currency,
        trade_time_ms,
        updated_time_ms,
        is_rpi,
    };
    assert(f@.fee_currency == first_fee_currency_of(row@.fee_detail));
    Ok(f)
}

/// The order updates of the rows, in order; the first failing row's error otherwise.
pub open spec fn order_updates_of(rows: Seq<RawOrderUpdateView>) -> Result<Seq<OrderUpdateView>, ErrorView>
    decreases rows.len(),
{
    if rows.len() == 0 {
        Ok(Seq::empty())
    } else {
        match order_updates_of(rows.drop_last()) {
            Err(e) => Err(e),
            Ok(prev) => match order_update_of(rows.last()) {
                Err(e) => Err(e),
                Ok(d) => Ok(prev.push(d)),
            },
        }
    }
}

proof fn lemma_order_updates_of_error_prefix(rows: Seq<RawOrderUpdateView>, k: int)
    requires
        0 <= k <= rows.len(),
        order_updates_of(rows.subrange(0, k)) is Err,
    ensures
        order_updates_of(rows) == order_updates_of(rows.subrange(0, k)),
    decreases rows.len(),
{
    if k < rows.len() {
        assert(rows.drop_last().subrange(0, k) =~= rows.subrange(0, k));
        lemma_order_updates_of_error_prefix(rows.drop_last(), k);
    } else {
        assert(rows.subrange(0, k) =~= rows);
    }
}

pub open spec fn order_update_views(rows: Seq<BitgetOrderUpdate>) -> Seq<OrderUpdateView> {
    rows.map_values(|r: BitgetOrderUpdate| r@)
}

fn order_updates(rows: &Vec<RawOrderUpdate>) -> (r: Result<Vec<BitgetOrderUpdate>, ExchangeError>)
    ensures
        match r {
            Ok(v) => order_updates_of(order_row_views(rows@)) == Ok::<Seq<OrderUpdateView>, ErrorView>(order_update_views(v@)),
            Err(e) => order_updates_of(order_row_views(rows@)) == Err::<Seq<OrderUpdateView>, ErrorView>(e@),
        },
{
    let n = rows.len();
    let mut out: Vec<BitgetOrderUpdate> = Vec::new();
    let mut i: usize = 0;
    assert(order_row_views(rows@).subrange(0, 0) =~= Seq::<RawOrderUpdateView>::empty());
    assert(order_update_views(out@) =~= Seq::<OrderUpdateView>::empty());
    while i < n
        invariant
            n == rows@.len(),
            i <= n,
            order_updates_of(order_row_views(rows@).subrange(0, i as int)) == Ok::<Seq<OrderUpdateView>, ErrorView>(
                order_update_views(out@),
            ),
        decreases n - i,
    {
        let ghost all = order_row_views(rows@);
        let ghost next = all.subrange(0, i + 1);
        assert(next.drop_last() =~= all.subrange(0, i as int));
        assert(next.last() == rows@[i as int]@);
        match order_update(&rows[i]) {
            Ok(d) => {
                let ghost before = order_update_views(out@);
                out.push(d);
                assert(order_update_views(out@) =~= before.push(d@));
            },
            Err(e) => {
                proof {
                    lemma_order_updates_of_error_prefix(all, i + 1);
                }
                return Err(e);
            },
        }
        i = i + 1;
    }
    assert(order_row_views(rows@).subrange(0, n as int) =~= order_row_views(rows@));
    Ok(out)
}


/// The position rows of the rows, in order; the first failing row's error otherwise.
pub open spec fn position_deltas_of(rows: Seq<RawPositionDeltaView>) -> Result<Seq<PositionDeltaView>, ErrorView>
    decreases rows.len(),
{
    if rows.len() == 0 {
        Ok(Seq::empty())
    } else {
        match position_deltas_of(rows.drop_last()) {
            Err(e) => Err(e),
            Ok(prev) => match position_delta_of(rows.last()) {
                Err(e) => Err(e),
                Ok(d) => Ok(prev.push(d)),
            },
        }
    }
}

proof fn lemma_position_deltas_of_error_prefix(rows: Seq<RawPositionDeltaView>, k: int)
    requires
        0 <= k <= rows.len(),
        position_deltas_of(rows.subrange(0, k)) is Err,
    ensures
        position_deltas_of(rows) == position_deltas_of(rows.subrange(0, k)),
    decreases rows.len(),
{
    if k < rows.len() {
        assert(rows.drop_last().subrange(0, k) =~= rows.subrange(0, k));
        lemma_position_deltas_of_error_prefix(rows.drop_last(), k);
    } else {
        assert(rows.subrange(0, k) =~= rows);
    }
}

pub open spec fn position_delta_views(rows: Seq<BitgetPositionDelta>) -> Seq<PositionDeltaView> {
    rows.map_values(|r: BitgetPositionDelta| r@)
}

fn position_deltas(rows: &Vec<RawPositionDelta>) -> (r: Result<Vec<BitgetPositionDelta>, ExchangeError>)
    ensures
        match r {
            Ok(v) => position_deltas_of(position_row_views(rows@)) == Ok::<Seq<PositionDeltaView>, ErrorView>(position_delta_views(v@)),
            Err(e) => position_deltas_of(position_row_views(rows@)) == Err::<Seq<PositionDeltaView>, ErrorView>(e@),
        },
{
    let n = rows.len();
    let mut out: Vec<BitgetPositionDelta> = Vec::new();
    let mut i: usize = 0;
    assert(position_row_views(rows@).subrange(0, 0) =~= Seq::<RawPositionDeltaView>::empty());
    assert(position_delta_views(out@) =~= Seq::<PositionDeltaView>::empty());
    while i < n
        invariant
            n == rows@.len(),
            i <= n,
            position_deltas_of(position_row_views(rows@).subrange(0, i as int)) == Ok::<Seq<PositionDeltaView>, ErrorView>(
                position_delta_views(out@),
            ),
        decreases n - i,
    {
        let ghost all = position_row_views(rows@);
        let ghost next = all.subrange(0, i + 1);
        assert(next.drop_last() =~= all.subrange(0, i as int));
        assert(next.last() == rows@[i as int]@);
        match position_delta(&rows[i]) {
            Ok(d) => {
                let ghost before = position_delta_views(out@);
                out.push(d);
                assert(position_delta_views(out@) =~= before.push(d@));
            },
            Err(e) => {
                proof {
                    lemma_position_deltas_of_error_prefix(all, i + 1);
                }
                return Err(e);
            },
        }
        i = i + 1;
    }
    assert(position_row_views(rows@).subrange(0, n as int) =~= position_row_views(rows@));
    Ok(out)
}


/// The fills of the rows, in order; the first failing row's error otherwise.
pub open spec fn fill_updates_of(rows: Seq<RawFillUpdateView>) -> Result<Seq<FillView>, ErrorView>
    decreases rows.len(),
{
    if rows.len() == 0 {
        Ok(Seq::empty())
    } else {
        match fill_updates_of(rows.drop_last()) {
            Err(e) => Err(e),
            Ok(prev) => match fill_update_of(rows.last()) {
                Err(e) => Err(e),
                Ok(d) => Ok(prev.push(d)),
            },
        }
    }
}

proof fn lemma_fill_updates_of_error_prefix(rows: Seq<RawFillUpdateView>, k: int)
    requires
        0 <= k <= rows.len(),
        fill_updates_of(rows.subrange(0, k)) is Err,
    ensures
        fill_updates_of(rows) == fill_updates_of(rows.subrange(0, k)),
    decreases rows.len(),
{
    if k < rows.len() {
        assert(rows.drop_last().subrange(0, k) =~= rows.subrange(0, k));
        lemma_fill_updates_of_error_prefix(rows.drop_last(), k);
    } else {
        assert(rows.subrange(0, k) =~= rows);
    }
}

pub open spec fn fill_views(rows: Seq<BitgetFillUpdate>) -> Seq<FillView> {
    rows.map_values(|r: BitgetFillUpdate| r@)
}

fn fill_updates(rows: &Vec<RawFillUpdate>) -> (r: Result<Vec<BitgetFillUpdate>, ExchangeError>)
    ensures
        match r {
            Ok(v) => fill_updates_of(fill_row_views(rows@)) == Ok::<Seq<FillView>, ErrorView>(fill_views(v@)),
            Err(e) => fill_updates_of(fill_row_views(rows@)) == Err::<Seq<FillView>, ErrorView>(e@),
        },
{
    let n = rows.len();
    let mut out: Vec<BitgetFillUpdate> = Vec::new();
    let mut i: usize = 0;
    assert(fill_row_views(rows@).subrange(0, 0) =~= Seq::<RawFillUpdateView>::empty());
    assert(fill_views(out@) =~= Seq::<FillView>::empty());
    while i < n
        invariant
            n == rows@.len(),
            i <= n,
            fill_updates_of(fill_row_views(rows@).subrange(0, i as int)) == Ok::<Seq<FillView>, ErrorView>(
                fill_views(out@),
            ),
        decreases n - i,
    {
        let ghost all = fill_row_views(rows@);
        let ghost next = all.subrange(0, i + 1);
        assert(next.drop_last() =~= all.subrange(0, i as int));
        assert(next.last() == rows@[i as int]@);
        match fill_update(&rows[i]) {
            Ok(d) => {
                let ghost before = fill_views(out@);
                out.push(d);
                assert(fill_views(out@) =~= before.push(d@));
            },
            Err(e) => {
                proof {
                    lemma_fill_updates_of_error_prefix(all, i + 1);
                }
                return Err(e);
            },
        }
        i = i + 1;
    }
    assert(fill_row_views(rows@).subrange(0, n as int) =~= fill_row_views(rows@));
    Ok(out)
}

// ---------------------------------------------------------------------------
// Frames
// ---------------------------------------------------------------------------

pub const TOPIC_ACCOUNT: &'static str = "account";
pub const TOPIC_ORDER: &'static str = "order";
pub const TOPIC_POSITION: &'static str = "position";
pub const TOPIC_FILL: &'static str = "fill";

/// A parsed private event.
#[derive(Debug)]
pub enum BitgetUserEvent {
    Account(BitgetAccountUpdate),
    Order(Vec<BitgetOrderUpdate>),
    Position(BitgetPositionUpdate),
    Fill(Vec<BitgetFillUpdate>),
}

pub ghost enum UserEventView {
    Account(AccountUpdateView),
    Order(Seq<OrderUpdateView>),
    Position(PositionUpdateView),
    Fill(Seq<FillView>),
}

impl View for BitgetUserEvent {
    type V = UserEventView;

    open spec fn view(&self) -> UserEventView {
        match self {
            BitgetUserEvent::Account(a) => UserEventView::Account(a@),
            BitgetUserEvent::Order(rows) => UserEventView::Order(order_update_views(rows@)),
            BitgetUserEvent::Position(p) => UserEventView::Position(p@),
            BitgetUserEvent::Fill(rows) => UserEventView::Fill(fill_views(rows@)),
        }
    }
}

/// The envelope of a private frame: its topic (`arg.topic`, or the V2
/// `arg.channel`), its action and its data rows.
pub ghost struct EnvelopeView {
    pub topic: Seq<char>,
    pub action: Seq<char>,
    pub data: Seq<JsonValue>,
}

pub open spec fn decode_envelope_of(doc: JsonValue) -> Option<EnvelopeView> {
    if !struct_shaped(doc, 3) {
        None
    } else {
        match (
            field_in(doc, 0, seq!["arg"@]),
            tf(doc, 1, seq!["action"@]),
            list_or_default(field_in(doc, 2, seq!["data"@])),
        ) {
            (Some(arg), Ok(action), Some(data)) => if struct_shaped(arg, 1) {
                match tf(arg, 0, seq!["topic"@, "channel"@]) {
                    Ok(topic) => Some(EnvelopeView { topic, action, data }),
                    Err(_) => None,
                }
            } else {
                None
            },
            _ => None,
        }
    }
}

/// The event an account frame carries: exactly one aggregate row.
#[verifier::opaque]
pub open spec fn account_event_of(action: Seq<char>, data: Seq<JsonValue>) -> Result<
    Option<UserEventView>,
    ErrorView,
> {
    match decode_account_states_of(data) {
        None => Err(ws_error("account rows: invalid payload"@)),
        Some(rows) => if rows.len() != 1 {
            Err(ws_error("account expected one aggregate row, got "@ + nat_text(rows.len())))
        } else {
            match account_update_of(action, rows[0]) {
                Ok(a) => Ok(Some(UserEventView::Account(a))),
                Err(e) => Err(e),
            }
        },
    }
}

/// The event an order frame carries: one update per row.
#[verifier::opaque]
pub open spec fn order_event_of(topic: Seq<char>, data: Seq<JsonValue>) -> Result<
    Option<UserEventView>,
    ErrorView,
> {
    match decode_order_rows_of(data) {
        None => Err(ws_error(topic + " rows: invalid payload"@)),
        Some(rows) => match order_updates_of(rows) {
            Ok(v) => Ok(Some(UserEventView::Order(v))),
            Err(e) => Err(e),
        },
    }
}

/// The event a position frame carries: its action and one row per position.
#[verifier::opaque]
pub open spec fn position_event_of(topic: Seq<char>, action: Seq<char>, data: Seq<JsonValue>) -> Result<
    Option<UserEventView>,
    ErrorView,
> {
    match decode_position_rows_of(data) {
        None => Err(ws_error(topic + " rows: invalid payload"@)),
        Some(rows) => match position_deltas_of(rows) {
            Ok(v) => Ok(Some(UserEventView::Position(PositionUpdateView { action, positions: v }))),
            Err(e) => Err(e),
        },
    }
}

/// The event a fill frame carries: one fill per row.
#[verifier::opaque]
pub open spec fn fill_event_of(topic: Seq<char>, data: Seq<JsonValue>) -> Result<
    Option<UserEventView>,
    ErrorView,
> {
    match decode_fill_rows_of(data) {
        None => Err(ws_error(topic + " rows: invalid payload"@)),
        Some(rows) => match fill_updates_of(rows) {
            Ok(v) => Ok(Some(UserEventView::Fill(v))),
            Err(e) => Err(e),
        },
    }
}

/// The event an envelope carries. A frame without rows is an
/// acknowledgement and carries none, except an empty position snapshot,
/// which is evidence that the account holds no position. Unknown topics
/// carry nothing.
pub open spec fn event_of(env: EnvelopeView) -> Result<Option<UserEventView>, ErrorView> {
    if env.data.len() == 0 && !(env.topic == "position"@ && env.action == "snapshot"@) {
        Ok(None)
    } else if env.topic == "account"@ {
        account_event_of(env.action, env.data)
    } else if env.topic == "order"@ {
        order_event_of(env.topic, env.data)
    } else if env.topic == "position"@ {
        position_event_of(env.topic, env.action, env.data)
    } else if env.topic == "fill"@ {
        fill_event_of(env.topic, env.data)
    } else {
        Ok(None)
    }
}

/// What a private frame means: a heartbeat `pong` carries nothing; a frame
/// that is no JSON envelope is refused with its text.
pub open spec fn user_event_of(text: Seq<char>) -> Result<Option<UserEventView>, ErrorView> {
    if is_pong(text) {
        Ok(None)
    } else {
        match json_document(text) {
            None => Err(ws_error("event: invalid payload; body="@ + text)),
            Some(doc) => match decode_envelope_of(doc) {
                None => Err(ws_error("event: invalid payload; body="@ + text)),
                Some(env) => event_of(env),
            },
        }
    }
}

fn invalid_rows(topic: &str) -> (e: ExchangeError)
    ensures
        e@ == ws_error(topic@ + " rows: invalid payload"@),
{
    ws_error_text(msg2(topic, " rows: invalid payload"))
}

/// What a decoded private frame means, or `None` when it is no envelope
/// (the caller refuses it with its text).
pub fn user_event_from_value(doc: &JsonValue) -> (r: Option<Result<Option<BitgetUserEvent>, ExchangeError>>)
    ensures
        match decode_envelope_of(*doc) {
            None => r is None,
            Some(env) => match r {
                Some(Ok(Some(ev))) => event_of(env) == Ok::<Option<UserEventView>, ErrorView>(
                    Some(ev@),
                ),
                Some(Ok(None)) => event_of(env) == Ok::<Option<UserEventView>, ErrorView>(None),
                Some(Err(e)) => event_of(env) == Err::<Option<UserEventView>, ErrorView>(e@),
                None => false,
            },
        },
{
    if !is_struct_shaped(doc, 3) {
        return None;
    }
    let arg = match member1(doc, 0, "arg") {
        Some(a) => a,
        None => {
            return None;
        },
    };
    let action = match text1(doc, 1, "action") {
        Ok(a) => a,
        Err(_) => {
            return None;
        },
    };
    let empty: Vec<JsonValue> = Vec::new();
    let data: &Vec<JsonValue> = match member1(doc, 2, "data") {
        None => &empty,
        Some(JsonValue::Array(items)) => items,
        Some(_) => {
            return None;
        },
    };
    if !is_struct_shaped(arg, 1) {
        return None;
    }
    let topic = match text2(arg, 0, "topic", "channel") {
        Ok(t) => t,
        Err(_) => {
            return None;
        },
    };
    assert(decode_envelope_of(*doc) == Some(envelope_view(topic@, action@, data@)));
    Some(envelope_event(topic, action, data))
}

pub open spec fn envelope_view(topic: Seq<char>, action: Seq<char>, data: Seq<JsonValue>) -> EnvelopeView {
    EnvelopeView { topic, action, data }
}

fn envelope_event(topic: String, action: String, data: &Vec<JsonValue>) -> (r: Result<
    Option<BitgetUserEvent>,
    ExchangeError,
>)
    ensures
        match r {
            Ok(Some(ev)) => event_of(envelope_view(topic@, action@, data@))
                == Ok::<Option<UserEventView>, ErrorView>(Some(ev@)),
            Ok(None) => event_of(envelope_view(topic@, action@, data@))
                == Ok::<Option<UserEventView>, ErrorView>(None),
            Err(e) => event_of(envelope_view(topic@, action@, data@))
                == Err::<Option<UserEventView>, ErrorView>(e@),
        },
{
    proof {
        reveal(account_event_of);
        reveal(order_event_of);
        reveal(position_event_of);
        reveal(fill_event_of);
    }
    let t = topic.as_str();
    if data.len() == 0 && !(str_eq(t, "position") && str_eq(action.as_str(), "snapshot")) {
        return Ok(None);
    }
    if str_eq(t, "account") {
        let rows = match decode_account_states(data) {
            Some(rows) => rows,
            None => {
                return Err(ws_error_text("account rows: invalid payload".to_owned()));
            },
        };
        if rows.len() != 1 {
            let mut m = String::new();
            push_str(&mut m, "account expected one aggregate row, got ");
            push_nat(&mut m, rows.len() as u64);
            return Err(ws_error_text(m));
        }
        let update = account_update(action, &rows[0])?;
        Ok(Some(BitgetUserEvent::Account(update)))
    } else if str_eq(t, "order") {
        let rows = match decode_order_rows(data) {
            Some(rows) => rows,
            None => {
                return Err(invalid_rows(t));
            },
        };
        let v = order_updates(&rows)?;
        Ok(Some(BitgetUserEvent::Order(v)))
    } else if str_eq(t, "position") {
        let rows = match decode_position_rows(data) {
            Some(rows) => rows,
            None => {
                return Err(invalid_rows(t));
            },
        };
        let v = position_deltas(&rows)?;
        let u = BitgetPositionUpdate { action, positions: v };
        assert(u@.positions == position_delta_views(u.positions@));
        Ok(Some(BitgetUserEvent::Position(u)))
    } else if str_eq(t, "fill") {
        let rows = match decode_fill_rows(data) {
            Some(rows) => rows,
            None => {
                return Err(invalid_rows(t));
            },
        };
        let v = fill_updates(&rows)?;
        Ok(Some(BitgetUserEvent::Fill(v)))
    } else {
        Ok(None)
    }
}

/// Parses one frame of the private stream into its event, if it carries one.
pub fn parse_user_event(text: &str) -> (r: Result<Option<BitgetUserEvent>, ExchangeError>)
    ensures
        match r {
            Ok(Some(ev)) => user_event_of(text@) == Ok::<Option<UserEventView>, ErrorView>(
                Some(ev@),
            ),
            Ok(None) => user_event_of(text@) == Ok::<Option<UserEventView>, ErrorView>(None),
            Err(e) => user_event_of(text@) == Err::<Option<UserEventView>, ErrorView>(e@),
        },
{
    if is_heartbeat_pong(text) {
        return Ok(None);
    }
    let doc = match parse_json(text) {
        Some(d) => d,
        None => {
            return Err(ws_error_text(msg2("event: invalid payload; body=", text)));
        },
    };
    match user_event_from_value(&doc) {
        Some(r) => r,
        None => Err(ws_error_text(msg2("event: invalid payload; body=", text))),
    }
}


proof fn lemma_account_states_len(items: Seq<JsonValue>)
    ensures
        decode_account_states_of(items) matches Some(rows) ==> rows.len() == items.len(),
    decreases items.len(),
{
    if items.len() > 0 {
        lemma_account_states_len(items.drop_last());
    }
}

proof fn lemma_order_rows_len(items: Seq<JsonValue>)
    ensures
        decode_order_rows_of(items) matches Some(rows) ==> rows.len() == items.len(),
    decreases items.len(),
{
    if items.len() > 0 {
        lemma_order_rows_len(items.drop_last());
    }
}

proof fn lemma_position_rows_len(items: Seq<JsonValue>)
    ensures
        decode_position_rows_of(items) matches Some(rows) ==> rows.len() == items.len(),
    decreases items.len(),
{
    if items.len() > 0 {
        lemma_position_rows_len(items.drop_last());
    }
}

proof fn lemma_fill_rows_len(items: Seq<JsonValue>)
    ensures
        decode_fill_rows_of(items) matches Some(rows) ==> rows.len() == items.len(),
    decreases items.len(),
{
    if items.len() > 0 {
        lemma_fill_rows_len(items.drop_last());
    }
}

proof fn lemma_order_updates_len(rows: Seq<RawOrderUpdateView>)
    ensures
        order_updates_of(rows) matches Ok(out) ==> out.len() == rows.len(),
    decreases rows.len(),
{
    if rows.len() > 0 {
        lemma_order_updates_len(rows.drop_last());
    }
}

proof fn lemma_position_deltas_len(rows: Seq<RawPositionDeltaView>)
    ensures
        position_deltas_of(rows) matches Ok(out) ==> out.len() == rows.len(),
    decreases rows.len(),
{
    if rows.len() > 0 {
        lemma_position_deltas_len(rows.drop_last());
    }
}

proof fn lemma_fill_updates_len(rows: Seq<RawFillUpdateView>)
    ensures
        fill_updates_of(rows) matches Ok(out) ==> out.len() == rows.len(),
    decreases rows.len(),
{
    if rows.len() > 0 {
        lemma_fill_updates_len(rows.drop_last());
    }
}

// ---------------------------------------------------------------------------
// Laws
// ---------------------------------------------------------------------------

/// A frame without rows is an acknowledgement and carries no event, with one
/// exception: an empty position snapshot is kept, as evidence that the
/// account holds no position.
pub proof fn only_empty_position_snapshots_survive(env: EnvelopeView)
    requires
        env.data.len() == 0,
    ensures
        !(env.topic == "position"@ && env.action == "snapshot"@) ==> event_of(env) is Ok
            && event_of(env)->Ok_0 is None,
        (env.topic == "position"@ && env.action == "snapshot"@) ==> (event_of(env) matches Ok(
            Some(UserEventView::Position(p)),
        ) && p.action == env.action && p.positions.len() == 0),
{
    if env.topic == "position"@ && env.action == "snapshot"@ {
        reveal(position_event_of);
        reveal_strlit("position");
        reveal_strlit("account");
        reveal_strlit("order");
        assert(env.topic != "account"@);
        assert(env.topic != "order"@);
        assert(env.data =~= Seq::<JsonValue>::empty());
        assert(decode_position_rows_of(env.data) == Some(Seq::<RawPositionDeltaView>::empty()));
        assert(position_deltas_of(Seq::<RawPositionDeltaView>::empty()) == Ok::<
            Seq<PositionDeltaView>,
            ErrorView,
        >(Seq::empty()));
    }
}

/// A private frame's event is the kind its topic names: account updates
/// come only from `account`, order updates only from `order`, position
/// updates only from `position` and fills only from `fill`; a frame of any
/// other topic carries nothing.
pub proof fn events_follow_their_topic(env: EnvelopeView)
    ensures
        event_of(env) matches Ok(Some(UserEventView::Account(_))) ==> env.topic == "account"@,
        event_of(env) matches Ok(Some(UserEventView::Order(_))) ==> env.topic == "order"@,
        event_of(env) matches Ok(Some(UserEventView::Position(_))) ==> env.topic == "position"@,
        event_of(env) matches Ok(Some(UserEventView::Fill(_))) ==> env.topic == "fill"@,
        (env.topic != "account"@ && env.topic != "order"@ && env.topic != "position"@ && env.topic
            != "fill"@) ==> event_of(env) == Ok::<Option<UserEventView>, ErrorView>(None),
{
    reveal(account_event_of);
    reveal(order_event_of);
    reveal(position_event_of);
    reveal(fill_event_of);
}

/// Each Bitget order status word names exactly one order status, in any
/// case: `live` and `new` are open, `partially_filled` partly filled,
/// `filled` filled, `canceled` and `cancelled` canceled; no word names a
/// pending, rejected or expired order, and every other word is refused.
pub proof fn bitget_status_words_name_their_status(raw: Seq<char>)
    ensures
        order_status_of(raw) == Ok::<OrderStatus, ErrorView>(OrderStatus::Open) <==> (lower(raw)
            == "live"@ || lower(raw) == "new"@),
        order_status_of(raw) == Ok::<OrderStatus, ErrorView>(OrderStatus::PartiallyFilled) <==> lower(
            raw,
        ) == "partially_filled"@,
        order_status_of(raw) == Ok::<OrderStatus, ErrorView>(OrderStatus::Filled) <==> lower(raw)
            == "filled"@,
        order_status_of(raw) == Ok::<OrderStatus, ErrorView>(OrderStatus::Canceled) <==> (lower(raw)
            == "canceled"@ || lower(raw) == "cancelled"@),
        !(order_status_of(raw) matches Ok(s) && (s is Pending || s is Rejected || s is Expired)),
        order_status_of(raw) is Ok <==> (lower(raw) == "live"@ || lower(raw) == "new"@ || lower(raw)
            == "partially_filled"@ || lower(raw) == "filled"@ || lower(raw) == "canceled"@ || lower(
            raw,
        ) == "cancelled"@),
{
    reveal_strlit("live");
    reveal_strlit("new");
    reveal_strlit("partially_filled");
    reveal_strlit("filled");
    reveal_strlit("canceled");
    reveal_strlit("cancelled");
    assert("live"@.len() == 4);
    assert("new"@.len() == 3);
    assert("partially_filled"@.len() == 16);
    assert("filled"@.len() == 6);
    assert("canceled"@.len() == 8);
    assert("cancelled"@.len() == 9);
}

/// Each side word of an order update names its side, in any case: `buy`
/// buys and `sell` sells; every other word is refused.
pub proof fn bitget_side_words_name_their_side(raw: Seq<char>)
    ensures
        order_side_of(raw) == Ok::<OrderSide, ErrorView>(OrderSide::Buy) <==> lower(raw) == "buy"@,
        order_side_of(raw) == Ok::<OrderSide, ErrorView>(OrderSide::Sell) <==> lower(raw)
            == "sell"@,
        order_side_of(raw) is Ok <==> (lower(raw) == "buy"@ || lower(raw) == "sell"@),
{
    reveal_strlit("buy");
    reveal_strlit("sell");
    assert("buy"@.len() != "sell"@.len());
}

/// The type of an order update, in any case: `market` is a market order
/// whatever its time in force; a `limit` order is post-only exactly when its
/// time in force is `post_only` or `postonly`, and a plain limit order
/// otherwise; every other type word is refused.
pub proof fn bitget_type_words_name_their_type(raw_type: Seq<char>, force: Seq<char>)
    ensures
        order_type_of(raw_type, force) == Ok::<OrderType, ErrorView>(OrderType::Market) <==> lower(
            raw_type,
        ) == "market"@,
        order_type_of(raw_type, force) == Ok::<OrderType, ErrorView>(OrderType::PostOnly) <==> (
        lower(raw_type) == "limit"@ && (lower(force) == "post_only"@ || lower(force)
            == "postonly"@)),
        order_type_of(raw_type, force) == Ok::<OrderType, ErrorView>(OrderType::Limit) <==> (lower(
            raw_type,
        ) == "limit"@ && lower(force) != "post_only"@ && lower(force) != "postonly"@),
        order_type_of(raw_type, force) is Ok <==> (lower(raw_type) == "market"@ || lower(raw_type)
            == "limit"@),
{
    reveal_strlit("market");
    reveal_strlit("limit");
    assert("market"@.len() != "limit"@.len());
}

/// An order's `reduceOnly` is set exactly for `YES`, unset exactly for `NO`
/// (in any case, around white space), absent exactly when blank, and
/// refused otherwise.
pub proof fn reduce_only_words_name_their_flag(raw: Seq<char>)
    ensures
        reduce_only_flag_of(raw) == Ok::<Option<bool>, ErrorView>(Some(true)) <==> upper(trim(raw))
            == "YES"@,
        reduce_only_flag_of(raw) == Ok::<Option<bool>, ErrorView>(Some(false)) <==> upper(
            trim(raw),
        ) == "NO"@,
        reduce_only_flag_of(raw) == Ok::<Option<bool>, ErrorView>(None) <==> trim(raw).len() == 0,
        reduce_only_flag_of(raw) is Ok <==> (upper(trim(raw)) == "YES"@ || upper(trim(raw))
            == "NO"@ || trim(raw).len() == 0),
{
    reveal_strlit("YES");
    reveal_strlit("NO");
    assert("YES"@.len() == 3);
    assert("NO"@.len() == 2);
}

/// A flag given as text is set exactly for `true` or `yes`, unset exactly
/// for `false` or `no`, in any case; a boolean is itself, an absent flag is
/// absent, and anything else is refused.
pub proof fn flag_texts_name_their_value(v: FlagValueView, field: Seq<char>)
    ensures
        v is Absent ==> optional_flag_of(v, field) == Ok::<Option<bool>, ErrorView>(None),
        v matches FlagValueView::Bool(b) ==> optional_flag_of(v, field) == Ok::<
            Option<bool>,
            ErrorView,
        >(Some(b)),
        v matches FlagValueView::Text(s) ==> {
            &&& (optional_flag_of(v, field) == Ok::<Option<bool>, ErrorView>(Some(true)) <==> (
            lower(s) == "true"@ || lower(s) == "yes"@))
            &&& (optional_flag_of(v, field) == Ok::<Option<bool>, ErrorView>(Some(false)) <==> (
            lower(s) == "false"@ || lower(s) == "no"@))
            &&& (optional_flag_of(v, field) is Ok <==> (lower(s) == "true"@ || lower(s) == "yes"@
                || lower(s) == "false"@ || lower(s) == "no"@))
        },
        v is Other ==> optional_flag_of(v, field) is Err,
{
    reveal_strlit("true");
    reveal_strlit("yes");
    reveal_strlit("false");
    reveal_strlit("no");
    assert(lower("true"@) =~= "true"@);
    assert(lower("yes"@) =~= "yes"@);
    assert(lower("false"@) =~= "false"@);
    assert(lower("no"@) =~= "no"@);
    assert("true"@.len() == 4);
    assert("yes"@.len() == 3);
    assert("false"@.len() == 5);
    assert("no"@.len() == 2);
}

/// An order update reports the status its row's word names: partly filled
/// exactly for `partially_filled`, filled exactly for `filled`, open
/// (accepted) exactly for `live` or `new`, canceled exactly for `canceled`
/// or `cancelled`; a partly filled order is never reported open.
pub proof fn order_updates_report_their_row_status(row: RawOrderUpdateView)
    ensures
        order_update_of(row) matches Ok(d) ==> {
            let l = lower(row.status);
            &&& (d.order.status == OrderStatus::PartiallyFilled <==> l == "partially_filled"@)
            &&& (d.live_state == LiveOrderState::PartiallyFilled <==> l == "partially_filled"@)
            &&& (d.order.status == OrderStatus::Filled <==> l == "filled"@)
            &&& (d.live_state == LiveOrderState::Filled <==> l == "filled"@)
            &&& (d.order.status == OrderStatus::Open <==> (l == "live"@ || l == "new"@))
            &&& (d.live_state == LiveOrderState::Accepted <==> (l == "live"@ || l == "new"@))
            &&& (d.order.status == OrderStatus::Canceled <==> (l == "canceled"@ || l
                == "cancelled"@))
        },
{
    bitget_status_words_name_their_status(row.status);
    match order_head_of(row) {
        Ok(head) => {
            assert(order_status_of(row.status) == Ok::<OrderStatus, ErrorView>(head.status));
            match order_info_of(row, head) {
                Ok(order) => {
                    assert(order.status == head.status);
                },
                Err(_) => {},
            }
        },
        Err(_) => {},
    }
}

/// An account event always comes from exactly one aggregate row, and every
/// order, position or fill event has one entry per data row.
#[verifier::spinoff_prover]
#[verifier::rlimit(50)]
pub proof fn events_match_their_rows(env: EnvelopeView)
    ensures
        match event_of(env) {
            Ok(Some(UserEventView::Account(_))) => env.data.len() == 1,
            Ok(Some(UserEventView::Order(rows))) => rows.len() == env.data.len(),
            Ok(Some(UserEventView::Position(p))) => p.positions.len() == env.data.len(),
            Ok(Some(UserEventView::Fill(rows))) => rows.len() == env.data.len(),
            _ => true,
        },
{
    reveal(account_event_of);
    reveal(order_event_of);
    reveal(position_event_of);
    reveal(fill_event_of);
    match decode_account_states_of(env.data) {
        Some(rows) => lemma_account_states_len(env.data),
        None => {},
    }
    lemma_order_rows_len(env.data);
    lemma_position_rows_len(env.data);
    lemma_fill_rows_len(env.data);
    match decode_order_rows_of(env.data) {
        Some(rows) => lemma_order_updates_len(rows),
        None => {},
    }
    match decode_position_rows_of(env.data) {
        Some(rows) => lemma_position_deltas_len(rows),
        None => {},
    }
    match decode_fill_rows_of(env.data) {
        Some(rows) => lemma_fill_updates_len(rows),
        None => {},
    }
}

} // verus!
