//! Bitget V3 / UTA private read responses: the unified account's assets, its
//! current positions and its orders.
//!
//! Every numeric field must be present and read as a finite number; nothing
//! missing or malformed is replaced by a default. Numbers are kept as the
//! trimmed decimal text the venue sent.

use vstd::prelude::*;
use crate::binance_ws_user::finite_value_of;
use crate::clock::{chrono_millis_representable, millis_in_chrono_range};
use crate::decimal::{
    is_finite_number, is_positive_reading, is_zero_reading, number_kind, parse_number_text,
    reads_finite, reads_positive, reads_zero, NumberText,
};
use crate::error::{ErrorView, ExchangeError};
use crate::json::{
    decode_optional_text_field, decode_required_text_field, decode_text_field, field, get_field,
    is_struct_shaped, list_or_default, optional_text, required_text, struct_shaped,
    text_or_default, JsonValue,
};
use crate::orders::{order_info_view, OrderInfo, OrderInfoView, OrderSide, OrderStatus, OrderType};
use crate::symbols::{client_id_of, client_order_id_from_str, strip_common_suffixes, strip_quote};
use crate::text::{
    blank, eq_ignore_ascii_case, eq_ignore_case, lower, parse_i64, parse_i64_text,
    push_str, str_eq, to_lower, to_upper, trim, trimmed, upper,
};

verus! {

pub const NAME: &'static str = "bitget";

// ---------------------------------------------------------------------------
// Errors and fields
// ---------------------------------------------------------------------------

/// The error for a field that is missing or does not read.
pub open spec fn field_error(scope: Seq<char>, field: Seq<char>, value: Seq<char>) -> ErrorView {
    ErrorView::Parse("bitget "@ + scope + " field "@ + field + " invalid: "@ + value)
}

pub fn bitget_parse(scope: &str, field: &str, value: &str) -> (e: ExchangeError)
    ensures
        e@ == field_error(scope@, field@, value@),
{
    let mut m = String::new();
    push_str(&mut m, "bitget ");
    push_str(&mut m, scope);
    push_str(&mut m, " field ");
    push_str(&mut m, field);
    push_str(&mut m, " invalid: ");
    push_str(&mut m, value);
    assert(m@ =~= "bitget "@ + scope@ + " field "@ + field@ + " invalid: "@ + value@);
    ExchangeError::Parse(m)
}

/// A required text field: trimmed, and not empty.
pub open spec fn required_field(scope: Seq<char>, field: Seq<char>, value: Seq<char>) -> Result<
    Seq<char>,
    ErrorView,
> {
    if trim(value).len() == 0 {
        Err(field_error(scope, field, trim(value)))
    } else {
        Ok(trim(value))
    }
}

pub fn parse_required_text(scope: &str, field: &str, value: &str) -> (r: Result<
    String,
    ExchangeError,
>)
    ensures
        match r {
            Ok(t) => required_field(scope@, field@, value@) == Ok::<Seq<char>, ErrorView>(t@),
            Err(e) => required_field(scope@, field@, value@) == Err::<Seq<char>, ErrorView>(e@),
        },
{
    let t = trimmed(value);
    if t.unicode_len() == 0 {
        Err(bitget_parse(scope, field, t.as_str()))
    } else {
        Ok(t)
    }
}

/// A required decimal field: its trimmed text, which must read as a finite
/// number.
pub open spec fn decimal_field(scope: Seq<char>, field: Seq<char>, value: Seq<char>) -> Result<
    Seq<char>,
    ErrorView,
> {
    let t = trim(value);
    if t.len() > 0 && (number_kind(t) matches Some(k) && reads_finite(k)) {
        Ok(t)
    } else {
        Err(field_error(scope, field, t))
    }
}

/// Reads a required decimal field; the value is returned with its text.
fn read_decimal(scope: &str, field: &str, value: &str) -> (r: Result<
    (String, crate::decimal::Decimal),
    ExchangeError,
>)
    ensures
        match r {
            Ok((t, d)) => decimal_field(scope@, field@, value@) == Ok::<Seq<char>, ErrorView>(t@)
                && d@ == finite_value_of(t@) && crate::decimal::decimal_wf(d@),
            Err(e) => decimal_field(scope@, field@, value@) == Err::<Seq<char>, ErrorView>(e@),
        },
{
    let t = trimmed(value);
    if t.unicode_len() == 0 {
        return Err(bitget_parse(scope, field, t.as_str()));
    }
    match parse_number_text(t.as_str()) {
        Some(n) => {
            if is_finite_number(&n) {
                match n {
                    NumberText::Finite(d) => Ok((t, d)),
                    _ => Err(bitget_parse(scope, field, t.as_str())),
                }
            } else {
                Err(bitget_parse(scope, field, t.as_str()))
            }
        },
        None => Err(bitget_parse(scope, field, t.as_str())),
    }
}

pub fn parse_required_decimal(scope: &str, field: &str, value: &str) -> (r: Result<
    String,
    ExchangeError,
>)
    ensures
        match r {
            Ok(t) => decimal_field(scope@, field@, value@) == Ok::<Seq<char>, ErrorView>(t@),
            Err(e) => decimal_field(scope@, field@, value@) == Err::<Seq<char>, ErrorView>(e@),
        },
{
    match read_decimal(scope, field, value) {
        Ok((t, _)) => Ok(t),
        Err(e) => Err(e),
    }
}

/// A required decimal that reads as a number of at least zero.
pub open spec fn non_negative_field(scope: Seq<char>, field: Seq<char>, value: Seq<char>) -> Result<
    Seq<char>,
    ErrorView,
> {
    match decimal_field(scope, field, value) {
        Ok(t) => if !finite_value_of(t).neg || reads_zero(finite_value_of(t)) {
            Ok(t)
        } else {
            Err(field_error(scope, field, t))
        },
        Err(e) => Err(e),
    }
}

pub fn parse_required_non_negative_decimal(scope: &str, field: &str, value: &str) -> (r: Result<
    String,
    ExchangeError,
>)
    ensures
        match r {
            Ok(t) => non_negative_field(scope@, field@, value@) == Ok::<Seq<char>, ErrorView>(t@),
            Err(e) => non_negative_field(scope@, field@, value@) == Err::<Seq<char>, ErrorView>(
                e@,
            ),
        },
{
    let (t, d) = read_decimal(scope, field, value)?;
    if !d.neg || is_zero_reading(&d) {
        Ok(t)
    } else {
        Err(bitget_parse(scope, field, t.as_str()))
    }
}

/// A required decimal that reads as a number above zero.
pub open spec fn positive_field(scope: Seq<char>, field: Seq<char>, value: Seq<char>) -> Result<
    Seq<char>,
    ErrorView,
> {
    match decimal_field(scope, field, value) {
        Ok(t) => if reads_positive(finite_value_of(t)) {
            Ok(t)
        } else {
            Err(field_error(scope, field, t))
        },
        Err(e) => Err(e),
    }
}

pub fn parse_positive_required_decimal(scope: &str, field: &str, value: &str) -> (r: Result<
    String,
    ExchangeError,
>)
    ensures
        match r {
            Ok(t) => positive_field(scope@, field@, value@) == Ok::<Seq<char>, ErrorView>(t@),
            Err(e) => positive_field(scope@, field@, value@) == Err::<Seq<char>, ErrorView>(e@),
        },
{
    let (t, d) = read_decimal(scope, field, value)?;
    if is_positive_reading(&d) {
        Ok(t)
    } else {
        Err(bitget_parse(scope, field, t.as_str()))
    }
}

/// A required timestamp: positive milliseconds that a UTC time can hold.
pub open spec fn timestamp_field(scope: Seq<char>, field: Seq<char>, value: Seq<char>) -> Result<
    i64,
    ErrorView,
> {
    match parse_i64_text(trim(value)) {
        Some(ms) => if ms > 0 && millis_in_chrono_range(ms) {
            Ok(ms)
        } else {
            Err(field_error(scope, field, value))
        },
        None => Err(field_error(scope, field, value)),
    }
}

pub fn parse_required_timestamp(scope: &str, field: &str, value: &str) -> (r: Result<
    i64,
    ExchangeError,
>)
    ensures
        match r {
            Ok(ms) => timestamp_field(scope@, field@, value@) == Ok::<i64, ErrorView>(ms),
            Err(e) => timestamp_field(scope@, field@, value@) == Err::<i64, ErrorView>(e@),
        },
{
    let t = trimmed(value);
    match parse_i64(t.as_str()) {
        Some(ms) => {
            if ms > 0 && chrono_millis_representable(ms) {
                Ok(ms)
            } else {
                Err(bitget_parse(scope, field, value))
            }
        },
        None => Err(bitget_parse(scope, field, value)),
    }
}

// ---------------------------------------------------------------------------
// Enumerations
// ---------------------------------------------------------------------------

/// `reduceOnly`: `YES` or `NO` in any case, around white space.
pub open spec fn reduce_only_of(value: Seq<char>) -> Option<bool> {
    let u = upper(trim(value));
    if u == "YES"@ {
        Some(true)
    } else if u == "NO"@ {
        Some(false)
    } else {
        None
    }
}

pub fn parse_reduce_only(value: &str) -> (r: Result<Option<bool>, ExchangeError>)
    ensures
        match r {
            Ok(b) => reduce_only_of(value@) matches Some(x) && b == Some(x),
            Err(e) => reduce_only_of(value@).is_none() && e@ == field_error(
                "unfilled orders"@,
                "reduceOnly"@,
                value@,
            ),
        },
{
    let t = trimmed(value);
    let u = to_upper(t.as_str());
    if str_eq(u.as_str(), "YES") {
        Ok(Some(true))
    } else if str_eq(u.as_str(), "NO") {
        Ok(Some(false))
    } else {
        Err(bitget_parse("unfilled orders", "reduceOnly", value))
    }
}

pub open spec fn order_side_of(value: Seq<char>) -> Option<OrderSide> {
    if lower(value) == "buy"@ {
        Some(OrderSide::Buy)
    } else if lower(value) == "sell"@ {
        Some(OrderSide::Sell)
    } else {
        None
    }
}

pub fn parse_order_side(side: &str) -> (r: Result<OrderSide, ExchangeError>)
    ensures
        match r {
            Ok(s) => order_side_of(side@) == Some(s),
            Err(e) => order_side_of(side@).is_none() && e@ == field_error(
                "unfilled orders"@,
                "side"@,
                side@,
            ),
        },
{
    let l = to_lower(side);
    if str_eq(l.as_str(), "buy") {
        Ok(OrderSide::Buy)
    } else if str_eq(l.as_str(), "sell") {
        Ok(OrderSide::Sell)
    } else {
        Err(bitget_parse("unfilled orders", "side", side))
    }
}

pub open spec fn order_type_of(value: Seq<char>) -> Option<OrderType> {
    if lower(value) == "market"@ {
        Some(OrderType::Market)
    } else if lower(value) == "limit"@ {
        Some(OrderType::Limit)
    } else {
        None
    }
}

pub fn parse_order_type(order_type: &str) -> (r: Result<OrderType, ExchangeError>)
    ensures
        match r {
            Ok(t) => order_type_of(order_type@) == Some(t),
            Err(e) => order_type_of(order_type@).is_none() && e@ == field_error(
                "unfilled orders"@,
                "orderType"@,
                order_type@,
            ),
        },
{
    let l = to_lower(order_type);
    if str_eq(l.as_str(), "market") {
        Ok(OrderType::Market)
    } else if str_eq(l.as_str(), "limit") {
        Ok(OrderType::Limit)
    } else {
        Err(bitget_parse("unfilled orders", "orderType", order_type))
    }
}

pub open spec fn order_status_of(value: Seq<char>) -> Option<OrderStatus> {
    let l = lower(value);
    if l == "live"@ || l == "new"@ {
        Some(OrderStatus::Open)
    } else if l == "partially_filled"@ {
        Some(OrderStatus::PartiallyFilled)
    } else if l == "filled"@ {
        Some(OrderStatus::Filled)
    } else if l == "canceled"@ || l == "cancelled"@ {
        Some(OrderStatus::Canceled)
    } else {
        None
    }
}

pub fn parse_order_status(status: &str) -> (r: Result<OrderStatus, ExchangeError>)
    ensures
        match r {
            Ok(s) => order_status_of(status@) == Some(s),
            Err(e) => order_status_of(status@).is_none() && e@ == field_error(
                "unfilled orders"@,
                "orderStatus"@,
                status@,
            ),
        },
{
    let l = to_lower(status);
    if str_eq(l.as_str(), "live") || str_eq(l.as_str(), "new") {
        Ok(OrderStatus::Open)
    } else if str_eq(l.as_str(), "partially_filled") {
        Ok(OrderStatus::PartiallyFilled)
    } else if str_eq(l.as_str(), "filled") {
        Ok(OrderStatus::Filled)
    } else if str_eq(l.as_str(), "canceled") || str_eq(l.as_str(), "cancelled") {
        Ok(OrderStatus::Canceled)
    } else {
        Err(bitget_parse("unfilled orders", "orderStatus", status))
    }
}

#[derive(Clone, Copy, Debug, PartialEq, Eq, Structural)]
pub enum BitgetTimeInForce {
    Gtc,
    Ioc,
    Fok,
    PostOnly,
    Rpi,
}

pub open spec fn time_in_force_of(value: Seq<char>) -> Option<BitgetTimeInForce> {
    let l = lower(value);
    if l == "gtc"@ {
        Some(BitgetTimeInForce::Gtc)
    } else if l == "ioc"@ {
        Some(BitgetTimeInForce::Ioc)
    } else if l == "fok"@ {
        Some(BitgetTimeInForce::Fok)
    } else if l == "post_only"@ {
        Some(BitgetTimeInForce::PostOnly)
    } else if l == "rpi"@ {
        Some(BitgetTimeInForce::Rpi)
    } else {
        None
    }
}

pub fn parse_time_in_force(value: &str) -> (r: Result<BitgetTimeInForce, ExchangeError>)
    ensures
        match r {
            Ok(t) => time_in_force_of(value@) == Some(t),
            Err(e) => time_in_force_of(value@).is_none() && e@ == field_error(
                "unfilled orders"@,
                "timeInForce"@,
                value@,
            ),
        },
{
    let l = to_lower(value);
    if str_eq(l.as_str(), "gtc") {
        Ok(BitgetTimeInForce::Gtc)
    } else if str_eq(l.as_str(), "ioc") {
        Ok(BitgetTimeInForce::Ioc)
    } else if str_eq(l.as_str(), "fok") {
        Ok(BitgetTimeInForce::Fok)
    } else if str_eq(l.as_str(), "post_only") {
        Ok(BitgetTimeInForce::PostOnly)
    } else if str_eq(l.as_str(), "rpi") {
        Ok(BitgetTimeInForce::Rpi)
    } else {
        Err(bitget_parse("unfilled orders", "timeInForce", value))
    }
}

#[derive(Clone, Copy, Debug, PartialEq, Eq, Structural)]
pub enum BitgetHoldMode {
    OneWay,
    Hedge,
}

pub open spec fn hold_mode_of(value: Seq<char>) -> Option<BitgetHoldMode> {
    if lower(value) == "one_way_mode"@ {
        Some(BitgetHoldMode::OneWay)
    } else if lower(value) == "hedge_mode"@ {
        Some(BitgetHoldMode::Hedge)
    } else {
        None
    }
}

pub fn parse_hold_mode(value: &str) -> (r: Result<BitgetHoldMode, ExchangeError>)
    ensures
        match r {
            Ok(m) => hold_mode_of(value@) == Some(m),
            Err(e) => hold_mode_of(value@).is_none() && e@ == field_error(
                "current position"@,
                "holdMode"@,
                value@,
            ),
        },
{
    let l = to_lower(value);
    if str_eq(l.as_str(), "one_way_mode") {
        Ok(BitgetHoldMode::OneWay)
    } else if str_eq(l.as_str(), "hedge_mode") {
        Ok(BitgetHoldMode::Hedge)
    } else {
        Err(bitget_parse("current position", "holdMode", value))
    }
}

pub open spec fn position_side_of(value: Seq<char>) -> Option<Seq<char>> {
    if lower(value) == "long"@ {
        Some("long"@)
    } else if lower(value) == "short"@ {
        Some("short"@)
    } else {
        None
    }
}

pub fn parse_position_side(side: &str) -> (r: Result<String, ExchangeError>)
    ensures
        match r {
            Ok(s) => position_side_of(side@) == Some(s@),
            Err(e) => position_side_of(side@).is_none() && e@ == field_error(
                "current position"@,
                "posSide"@,
                side@,
            ),
        },
{
    let l = to_lower(side);
    if str_eq(l.as_str(), "long") {
        Ok("long".to_owned())
    } else if str_eq(l.as_str(), "short") {
        Ok("short".to_owned())
    } else {
        Err(bitget_parse("current position", "posSide", side))
    }
}

// ---------------------------------------------------------------------------
// Orders
// ---------------------------------------------------------------------------

/// A fee row of an order: the coin charged and the amount, either of which
/// may be missing.
#[derive(Debug)]
pub struct UtaFeeDetail {
    pub fee_coin: Option<String>,
    pub fee: Option<String>,
}

/// A row of `GET /api/v3/trade/unfilled-orders` or `order-info`.
#[derive(Debug)]
pub struct UtaOrderRow {
    pub symbol: String,
    pub order_id: String,
    pub order_status: String,
    pub order_type: String,
    pub time_in_force: String,
    pub side: String,
    pub price: String,
    pub qty: String,
    pub cum_exec_qty: String,
    pub avg_price: String,
    pub created_time: String,
    pub client_oid: String,
    pub reduce_only: String,
    pub fee_detail: Vec<UtaFeeDetail>,
    pub exec_type: String,
    pub cancel_reason: String,
}

/// A text trimmed, or nothing when absent or blank.
pub open spec fn present_text(value: Option<Seq<char>>) -> Option<Seq<char>> {
    match value {
        Some(v) => if trim(v).len() > 0 {
            Some(trim(v))
        } else {
            None
        },
        None => None,
    }
}

pub open spec fn fee_view(row: UtaFeeDetail) -> (Option<Seq<char>>, Option<Seq<char>>) {
    (
        match row.fee_coin {
            Some(c) => Some(c@),
            None => None,
        },
        match row.fee {
            Some(f) => Some(f@),
            None => None,
        },
    )
}

/// What one fee row contributes: nothing when both members are missing, its
/// amount when both are present; a row with only one of them is an error.
pub open spec fn fee_of(row: (Option<Seq<char>>, Option<Seq<char>>)) -> Result<Option<Seq<char>>, ErrorView> {
    match (present_text(row.0), present_text(row.1)) {
        (None, None) => Ok(None),
        (Some(_), Some(fee)) => match decimal_field("order"@, "feeDetail.fee"@, fee) {
            Ok(t) => Ok(Some(t)),
            Err(e) => Err(e),
        },
        (None, Some(_)) => Err(field_error("order"@, "feeDetail.feeCoin"@, Seq::empty())),
        (Some(_), None) => Err(field_error("order"@, "feeDetail.fee"@, Seq::empty())),
    }
}

/// The fee amounts of an order, in row order; the first bad row is the error.
pub open spec fn fees_of(rows: Seq<(Option<Seq<char>>, Option<Seq<char>>)>) -> Result<Seq<Seq<char>>, ErrorView>
    decreases rows.len(),
{
    if rows.len() == 0 {
        Ok(Seq::empty())
    } else {
        match fees_of(rows.drop_last()) {
            Err(e) => Err(e),
            Ok(prev) => match fee_of(rows.last()) {
                Err(e) => Err(e),
                Ok(None) => Ok(prev),
                Ok(Some(f)) => Ok(prev.push(f)),
            },
        }
    }
}

fn present(value: &Option<String>) -> (r: Option<String>)
    ensures
        r matches Some(t) ==> present_text(fee_view(UtaFeeDetail { fee_coin: *value, fee: None }).0) == Some(t@),
        r is None ==> present_text(fee_view(UtaFeeDetail { fee_coin: *value, fee: None }).0).is_none(),
{
    match value {
        Some(v) => {
            let t = trimmed(v.as_str());
            if t.unicode_len() > 0 {
                Some(t)
            } else {
                None
            }
        },
        None => None,
    }
}

proof fn lemma_fees_error_prefix(rows: Seq<(Option<Seq<char>>, Option<Seq<char>>)>, k: int, e: ErrorView)
    requires
        0 < k <= rows.len(),
        fees_of(rows.subrange(0, k)) == Err::<Seq<Seq<char>>, ErrorView>(e),
    ensures
        fees_of(rows) == Err::<Seq<Seq<char>>, ErrorView>(e),
    decreases rows.len() - k,
{
    if k < rows.len() {
        let next = rows.subrange(0, k + 1);
        assert(next.drop_last() =~= rows.subrange(0, k));
        lemma_fees_error_prefix(rows, k + 1, e);
    } else {
        assert(rows.subrange(0, k) =~= rows);
    }
}

pub open spec fn fee_rows(rows: Seq<UtaFeeDetail>) -> Seq<(Option<Seq<char>>, Option<Seq<char>>)> {
    rows.map_values(|r: UtaFeeDetail| fee_view(r))
}

/// The fee amounts of an order's fee rows.
pub fn parse_fees(rows: &Vec<UtaFeeDetail>) -> (r: Result<Vec<String>, ExchangeError>)
    ensures
        match r {
            Ok(fees) => fees_of(fee_rows(rows@)) == Ok::<Seq<Seq<char>>, ErrorView>(
                fees@.map_values(|f: String| f@),
            ),
            Err(e) => fees_of(fee_rows(rows@)) == Err::<Seq<Seq<char>>, ErrorView>(e@),
        },
{
    let ghost all = fee_rows(rows@);
    let mut out: Vec<String> = Vec::new();
    let n = rows.len();
    let mut i: usize = 0;
    assert(all.subrange(0, 0) =~= Seq::<(Option<Seq<char>>, Option<Seq<char>>)>::empty());
    assert(out@.map_values(|f: String| f@) =~= Seq::<Seq<char>>::empty());
    while i < n
        invariant
            n == rows@.len(),
            all == fee_rows(rows@),
            i <= n,
            fees_of(all.subrange(0, i as int)) == Ok::<Seq<Seq<char>>, ErrorView>(
                out@.map_values(|f: String| f@),
            ),
        decreases n - i,
    {
        let ghost next = all.subrange(0, i + 1);
        assert(next.drop_last() =~= all.subrange(0, i as int));
        assert(next.last() == fee_view(rows@[i as int]));
        let coin = present(&rows[i].fee_coin);
        let fee = present(&rows[i].fee);
        assert(present_text(fee_view(rows@[i as int]).1) == present_text(fee_view(UtaFeeDetail { fee_coin: rows@[i as int].fee, fee: None }).0));
        let ghost before = out@.map_values(|f: String| f@);
        match (coin, fee) {
            (None, None) => {},
            (Some(_), Some(f)) => {
                match parse_required_decimal("order", "feeDetail.fee", f.as_str()) {
                    Ok(t) => {
                        out.push(t);
                        assert(out@.map_values(|f: String| f@) =~= before.push(out@.last()@));
                    },
                    Err(e) => {
                        proof {
                            lemma_fees_error_prefix(all, i + 1, e@);
                        }
                        return Err(e);
                    },
                }
            },
            (None, Some(_)) => {
                let e = bitget_parse("order", "feeDetail.feeCoin", "");
                proof {
                    assert(""@ =~= Seq::<char>::empty()) by {
                        reveal_strlit("");
                    }
                    lemma_fees_error_prefix(all, i + 1, e@);
                }
                return Err(e);
            },
            (Some(_), None) => {
                let e = bitget_parse("order", "feeDetail.fee", "");
                proof {
                    assert(""@ =~= Seq::<char>::empty()) by {
                        reveal_strlit("");
                    }
                    lemma_fees_error_prefix(all, i + 1, e@);
                }
                return Err(e);
            },
        }
        i = i + 1;
    }
    assert(all.subrange(0, n as int) =~= all);
    Ok(out)
}

/// How the venue executed or ended an order: its `execType` and
/// `cancelReason`, either alone or both, when not blank.
pub open spec fn order_context_of(exec_type: Seq<char>, cancel_reason: Seq<char>) -> Option<Seq<char>> {
    let e = trim(exec_type);
    let c = trim(cancel_reason);
    if e.len() == 0 && c.len() == 0 {
        None
    } else if c.len() == 0 {
        Some(e)
    } else if e.len() == 0 {
        Some("cancel_reason="@ + c)
    } else {
        Some(e + "; cancel_reason="@ + c)
    }
}

pub fn order_context(exec_type: &str, cancel_reason: &str) -> (r: Option<String>)
    ensures
        crate::orders::text_of(r) == order_context_of(exec_type@, cancel_reason@),
{
    let e = trimmed(exec_type);
    let c = trimmed(cancel_reason);
    let e_empty = e.unicode_len() == 0;
    let c_empty = c.unicode_len() == 0;
    if e_empty && c_empty {
        None
    } else if c_empty {
        Some(e)
    } else if e_empty {
        let mut out = String::new();
        push_str(&mut out, "cancel_reason=");
        push_str(&mut out, c.as_str());
        assert(out@ =~= "cancel_reason="@ + c@);
        Some(out)
    } else {
        let mut out = e;
        push_str(&mut out, "; cancel_reason=");
        push_str(&mut out, c.as_str());
        Some(out)
    }
}

pub ghost struct OrderRowView {
    pub symbol: Seq<char>,
    pub order_id: Seq<char>,
    pub order_status: Seq<char>,
    pub order_type: Seq<char>,
    pub time_in_force: Seq<char>,
    pub side: Seq<char>,
    pub price: Seq<char>,
    pub qty: Seq<char>,
    pub cum_exec_qty: Seq<char>,
    pub avg_price: Seq<char>,
    pub created_time: Seq<char>,
    pub client_oid: Seq<char>,
    pub reduce_only: Seq<char>,
    pub fee_detail: Seq<(Option<Seq<char>>, Option<Seq<char>>)>,
    pub exec_type: Seq<char>,
    pub cancel_reason: Seq<char>,
}

impl View for UtaOrderRow {
    type V = OrderRowView;

    open spec fn view(&self) -> OrderRowView {
        OrderRowView {
            symbol: self.symbol@,
            order_id: self.order_id@,
            order_status: self.order_status@,
            order_type: self.order_type@,
            time_in_force: self.time_in_force@,
            side: self.side@,
            price: self.price@,
            qty: self.qty@,
            cum_exec_qty: self.cum_exec_qty@,
            avg_price: self.avg_price@,
            created_time: self.created_time@,
            client_oid: self.client_oid@,
            reduce_only: self.reduce_only@,
            fee_detail: fee_rows(self.fee_detail@),
            exec_type: self.exec_type@,
            cancel_reason: self.cancel_reason@,
        }
    }
}

/// The order type: post-only when the time in force says so, otherwise the
/// row's `orderType`.
pub open spec fn open_order_type(o: OrderRowView, tif: BitgetTimeInForce) -> Result<OrderType, ErrorView> {
    if tif == BitgetTimeInForce::PostOnly {
        Ok(OrderType::PostOnly)
    } else {
        match order_type_of(o.order_type) {
            Some(t) => Ok(t),
            None => Err(field_error("unfilled orders"@, "orderType"@, o.order_type)),
        }
    }
}

/// The numeric members of an order, in the order they are checked:
/// `cumExecQty`, `qty`, `price`, `avgPrice`, then the fee rows.
pub open spec fn order_amounts(o: OrderRowView) -> Result<
    (Seq<char>, Seq<char>, Seq<char>, Seq<char>, Seq<Seq<char>>),
    ErrorView,
> {
    match decimal_field("order"@, "cumExecQty"@, o.cum_exec_qty) {
        Err(e) => Err(e),
        Ok(filled) => match decimal_field("order"@, "qty"@, o.qty) {
            Err(e) => Err(e),
            Ok(qty) => match decimal_field("order"@, "price"@, o.price) {
                Err(e) => Err(e),
                Ok(price) => match decimal_field("order"@, "avgPrice"@, o.avg_price) {
                    Err(e) => Err(e),
                    Ok(avg) => match fees_of(o.fee_detail) {
                        Err(e) => Err(e),
                        Ok(fees) => Ok((filled, qty, price, avg, fees)),
                    },
                },
            },
        },
    }
}

/// What an order row reads as. The checks run in this order: `orderId`,
/// `symbol`, `side`, `timeInForce`, `orderType`, `orderStatus`,
/// `createdTime`, `reduceOnly`, then the amounts; the first failure is the
/// error.
#[verifier::opaque]
pub open spec fn open_order_of(o: OrderRowView) -> Result<OrderInfoView, ErrorView> {
    match required_field("order"@, "orderId"@, o.order_id) {
        Err(e) => Err(e),
        Ok(_) => match required_field("order"@, "symbol"@, o.symbol) {
            Err(e) => Err(e),
            Ok(symbol) => match order_side_of(o.side) {
                None => Err(field_error("unfilled orders"@, "side"@, o.side)),
                Some(side) => match time_in_force_of(o.time_in_force) {
                    None => Err(field_error("unfilled orders"@, "timeInForce"@, o.time_in_force)),
                    Some(tif) => match open_order_type(o, tif) {
                        Err(e) => Err(e),
                        Ok(order_type) => match order_status_of(o.order_status) {
                            None => Err(
                                field_error("unfilled orders"@, "orderStatus"@, o.order_status),
                            ),
                            Some(status) => match timestamp_field(
                                "order"@,
                                "createdTime"@,
                                o.created_time,
                            ) {
                                Err(e) => Err(e),
                                Ok(created) => match reduce_only_of(o.reduce_only) {
                                    None => Err(
                                        field_error(
                                            "unfilled orders"@,
                                            "reduceOnly"@,
                                            o.reduce_only,
                                        ),
                                    ),
                                    Some(reduce_only) => match order_amounts(o) {
                                        Err(e) => Err(e),
                                        Ok((filled, qty, price, avg, fees)) => Ok(
                                            OrderInfoView {
                                                venue_time_in_force: Some(o.time_in_force),
                                                client_order_id: client_id_of(o.client_oid),
                                                reduce_only: Some(reduce_only),
                                                order_id: o.order_id,
                                                symbol: strip_quote(symbol),
                                                exchange: NAME@,
                                                side,
                                                order_type,
                                                status,
                                                quantity: qty,
                                                price,
                                                filled_quantity: filled,
                                                filled_price: avg,
                                                fees,
                                                execution_style: order_context_of(
                                                    o.exec_type,
                                                    o.cancel_reason,
                                                ),
                                                created_at_ms: created,
                                            },
                                        ),
                                    },
                                },
                            },
                        },
                    },
                },
            },
        },
    }
}

/// Each order status word of the REST order lists names exactly one order
/// status, in any case: `live` and `new` are open, `partially_filled` partly
/// filled, `filled` filled, `canceled` and `cancelled` canceled; no word
/// names a pending, rejected or expired order, and every other word none.
pub proof fn rest_status_words_name_their_status(value: Seq<char>)
    ensures
        order_status_of(value) == Some(OrderStatus::Open) <==> (lower(value) == "live"@ || lower(
            value,
        ) == "new"@),
        order_status_of(value) == Some(OrderStatus::PartiallyFilled) <==> lower(value)
            == "partially_filled"@,
        order_status_of(value) == Some(OrderStatus::Filled) <==> lower(value) == "filled"@,
        order_status_of(value) == Some(OrderStatus::Canceled) <==> (lower(value) == "canceled"@
            || lower(value) == "cancelled"@),
        !(order_status_of(value) matches Some(s) && (s is Pending || s is Rejected || s is Expired)),
        order_status_of(value) is Some <==> (lower(value) == "live"@ || lower(value) == "new"@
            || lower(value) == "partially_filled"@ || lower(value) == "filled"@ || lower(value)
            == "canceled"@ || lower(value) == "cancelled"@),
{
    reveal_strlit("live");
    reveal_strlit("new");
    reveal_strlit("partially_filled");
    reveal_strlit("filled");
    reveal_strlit("canceled");
    reveal_strlit("cancelled");
    assert("live"@.len() == 4);
    assert("new"@.len() == 3);
    assert("partially_filled"@.len() == 16);
    assert("filled"@.len() == 6);
    assert("canceled"@.len() == 8);
    assert("cancelled"@.len() == 9);
}

/// An open order reports the status its row's word names: partly filled
/// exactly for `partially_filled`, filled exactly for `filled`, open exactly
/// for `live` or `new`, canceled exactly for `canceled` or `cancelled`.
pub proof fn open_orders_report_their_row_status(o: OrderRowView)
    ensures
        open_order_of(o) matches Ok(info) ==> {
            let l = lower(o.order_status);
            &&& (info.status == OrderStatus::PartiallyFilled <==> l == "partially_filled"@)
            &&& (info.status == OrderStatus::Filled <==> l == "filled"@)
            &&& (info.status == OrderStatus::Open <==> (l == "live"@ || l == "new"@))
            &&& (info.status == OrderStatus::Canceled <==> (l == "canceled"@ || l == "cancelled"@))
        },
{
    reveal(open_order_of);
    rest_status_words_name_their_status(o.order_status);
}

/// Each REST side word names its side, in any case: `buy` buys and `sell`
/// sells; every other word names none.
pub proof fn rest_side_words_name_their_side(value: Seq<char>)
    ensures
        order_side_of(value) == Some(OrderSide::Buy) <==> lower(value) == "buy"@,
        order_side_of(value) == Some(OrderSide::Sell) <==> lower(value) == "sell"@,
        order_side_of(value) is Some <==> (lower(value) == "buy"@ || lower(value) == "sell"@),
{
    reveal_strlit("buy");
    reveal_strlit("sell");
    assert("buy"@.len() != "sell"@.len());
}

/// Each REST order type word names its type, in any case: `market` and
/// `limit`; no word names a post-only order, and every other word none.
pub proof fn rest_type_words_name_their_type(value: Seq<char>)
    ensures
        order_type_of(value) == Some(OrderType::Market) <==> lower(value) == "market"@,
        order_type_of(value) == Some(OrderType::Limit) <==> lower(value) == "limit"@,
        order_type_of(value) != Some(OrderType::PostOnly),
        order_type_of(value) is Some <==> (lower(value) == "market"@ || lower(value) == "limit"@),
{
    reveal_strlit("market");
    reveal_strlit("limit");
    assert("market"@.len() != "limit"@.len());
}

/// Each time-in-force word names its own rule, in any case: `gtc`, `ioc`,
/// `fok`, `post_only` and `rpi`; every other word names none.
pub proof fn time_in_force_words_name_their_rule(value: Seq<char>)
    ensures
        time_in_force_of(value) == Some(BitgetTimeInForce::Gtc) <==> lower(value) == "gtc"@,
        time_in_force_of(value) == Some(BitgetTimeInForce::Ioc) <==> lower(value) == "ioc"@,
        time_in_force_of(value) == Some(BitgetTimeInForce::Fok) <==> lower(value) == "fok"@,
        time_in_force_of(value) == Some(BitgetTimeInForce::PostOnly) <==> lower(value)
            == "post_only"@,
        time_in_force_of(value) == Some(BitgetTimeInForce::Rpi) <==> lower(value) == "rpi"@,
        time_in_force_of(value) is Some <==> (lower(value) == "gtc"@ || lower(value) == "ioc"@
            || lower(value) == "fok"@ || lower(value) == "post_only"@ || lower(value) == "rpi"@),
{
    reveal_strlit("gtc");
    reveal_strlit("ioc");
    reveal_strlit("fok");
    reveal_strlit("post_only");
    reveal_strlit("rpi");
    assert("gtc"@[0] != "ioc"@[0]);
    assert("gtc"@[0] != "fok"@[0]);
    assert("gtc"@[0] != "rpi"@[0]);
    assert("ioc"@[0] != "fok"@[0]);
    assert("ioc"@[0] != "rpi"@[0]);
    assert("fok"@[0] != "rpi"@[0]);
    assert("post_only"@.len() == 9);
    assert("gtc"@.len() == 3);
    assert("ioc"@.len() == 3);
    assert("fok"@.len() == 3);
    assert("rpi"@.len() == 3);
}

/// `reduceOnly` reads `YES` as true and `NO` as false, in any case and
/// around white space; every other value is refused.
pub proof fn reduce_only_words_name_their_flag(value: Seq<char>)
    ensures
        reduce_only_of(value) == Some(true) <==> upper(trim(value)) == "YES"@,
        reduce_only_of(value) == Some(false) <==> upper(trim(value)) == "NO"@,
        reduce_only_of(value) is Some <==> (upper(trim(value)) == "YES"@ || upper(trim(value))
            == "NO"@),
{
    reveal_strlit("YES");
    reveal_strlit("NO");
    assert("YES"@.len() != "NO"@.len());
}

/// Each hold mode word names its mode, in any case: `one_way_mode` and
/// `hedge_mode`; a position side is `long` or `short`, given back in lower
/// case; every other word names none.
pub proof fn position_words_name_their_mode_and_side(value: Seq<char>)
    ensures
        hold_mode_of(value) == Some(BitgetHoldMode::OneWay) <==> lower(value) == "one_way_mode"@,
        hold_mode_of(value) == Some(BitgetHoldMode::Hedge) <==> lower(value) == "hedge_mode"@,
        hold_mode_of(value) is Some <==> (lower(value) == "one_way_mode"@ || lower(value)
            == "hedge_mode"@),
        position_side_of(value) == Some("long"@) <==> lower(value) == "long"@,
        position_side_of(value) == Some("short"@) <==> lower(value) == "short"@,
        position_side_of(value) is Some <==> (lower(value) == "long"@ || lower(value) == "short"@),
{
    reveal_strlit("one_way_mode");
    reveal_strlit("hedge_mode");
    reveal_strlit("long");
    reveal_strlit("short");
    assert("one_way_mode"@.len() != "hedge_mode"@.len());
    assert("long"@.len() != "short"@.len());
}

/// Reads an order row.
pub fn parse_open_order(order: UtaOrderRow) -> (r: Result<OrderInfo, ExchangeError>)
    ensures
        match r {
            Ok(info) => open_order_of(order@) == Ok::<OrderInfoView, ErrorView>(
                order_info_view(info),
            ),
            Err(e) => open_order_of(order@) == Err::<OrderInfoView, ErrorView>(e@),
        },
{
    reveal(open_order_of);
    parse_required_text("order", "orderId", order.order_id.as_str())?;
    let symbol = parse_required_text("order", "symbol", order.symbol.as_str())?;
    let symbol = strip_common_suffixes(symbol.as_str());
    let side = parse_order_side(order.side.as_str())?;
    let tif = parse_time_in_force(order.time_in_force.as_str())?;
    let order_type = if tif == BitgetTimeInForce::PostOnly {
        OrderType::PostOnly
    } else {
        parse_order_type(order.order_type.as_str())?
    };
    let status = parse_order_status(order.order_status.as_str())?;
    let created_at = parse_required_timestamp("order", "createdTime", order.created_time.as_str())?;
    let reduce_only = parse_reduce_only(order.reduce_only.as_str())?;
    let filled_quantity = parse_required_decimal("order", "cumExecQty", order.cum_exec_qty.as_str())?;
    let quantity = parse_required_decimal("order", "qty", order.qty.as_str())?;
    let price = parse_required_decimal("order", "price", order.price.as_str())?;
    let filled_price = parse_required_decimal("order", "avgPrice", order.avg_price.as_str())?;
    let fees = parse_fees(&order.fee_detail)?;
    let info = OrderInfo {
        venue_time_in_force: Some(order.time_in_force.clone()),
        client_order_id: client_order_id_from_str(order.client_oid.as_str()),
        reduce_only,
        order_id: order.order_id,
        symbol,
        exchange: NAME.to_owned(),
        side,
        order_type,
        status,
        quantity,
        price,
        filled_quantity,
        filled_price,
        fees,
        execution_style: order_context(order.exec_type.as_str(), order.cancel_reason.as_str()),
        created_at_ms: created_at,
    };
    Ok(info)
}

/// Reads every order row; the first bad row is the error.
pub open spec fn open_orders_of(rows: Seq<OrderRowView>) -> Result<Seq<OrderInfoView>, ErrorView>
    decreases rows.len(),
{
    if rows.len() == 0 {
        Ok(Seq::empty())
    } else {
        match open_orders_of(rows.drop_last()) {
            Err(e) => Err(e),
            Ok(prev) => match open_order_of(rows.last()) {
                Err(e) => Err(e),
                Ok(o) => Ok(prev.push(o)),
            },
        }
    }
}

pub open spec fn order_rows(rows: Seq<UtaOrderRow>) -> Seq<OrderRowView> {
    rows.map_values(|o: UtaOrderRow| o@)
}

pub open spec fn order_infos(infos: Seq<OrderInfo>) -> Seq<OrderInfoView> {
    infos.map_values(|o: OrderInfo| order_info_view(o))
}

proof fn lemma_orders_error_prefix(rows: Seq<OrderRowView>, k: int, e: ErrorView)
    requires
        0 < k <= rows.len(),
        open_orders_of(rows.subrange(0, k)) == Err::<Seq<OrderInfoView>, ErrorView>(e),
    ensures
        open_orders_of(rows) == Err::<Seq<OrderInfoView>, ErrorView>(e),
    decreases rows.len() - k,
{
    if k < rows.len() {
        let next = rows.subrange(0, k + 1);
        assert(next.drop_last() =~= rows.subrange(0, k));
        lemma_orders_error_prefix(rows, k + 1, e);
    } else {
        assert(rows.subrange(0, k) =~= rows);
    }
}

/// Reads every order row of a list response.
pub fn parse_open_orders(rows: Vec<UtaOrderRow>) -> (r: Result<Vec<OrderInfo>, ExchangeError>)
    ensures
        match r {
            Ok(infos) => open_orders_of(order_rows(rows@)) == Ok::<Seq<OrderInfoView>, ErrorView>(
                order_infos(infos@),
            ),
            Err(e) => open_orders_of(order_rows(rows@)) == Err::<Seq<OrderInfoView>, ErrorView>(
                e@,
            ),
        },
{
    let ghost all = order_rows(rows@);
    let mut rest = rows;
    let mut out: Vec<OrderInfo> = Vec::new();
    let ghost mut i: int = 0;
    assert(all.subrange(0, 0) =~= Seq::<OrderRowView>::empty());
    assert(order_infos(out@) =~= Seq::<OrderInfoView>::empty());
    assert(order_rows(rest@) =~= all.subrange(0, all.len() as int));
    while rest.len() > 0
        invariant
            all == order_rows(rows@),
            0 <= i <= all.len(),
            order_rows(rest@) == all.subrange(i, all.len() as int),
            open_orders_of(all.subrange(0, i)) == Ok::<Seq<OrderInfoView>, ErrorView>(
                order_infos(out@),
            ),
        decreases rest.len(),
    {
        let ghost before = rest@;
        let row = rest.remove(0);
        proof {
            assert(before.len() > 0);
            assert(order_rows(before) == all.subrange(i, all.len() as int));
            assert(order_rows(before).len() == before.len());
            assert(i < all.len());
            assert(order_rows(before)[0] == before[0]@);
            assert(all.subrange(i, all.len() as int)[0] == all[i]);
            assert(row == before[0]);
            assert(rest@ =~= before.subrange(1, before.len() as int));
            assert forall|j: int| 0 <= j < rest@.len() implies #[trigger] order_rows(rest@)[j]
                == all.subrange(i + 1, all.len() as int)[j] by {
                assert(order_rows(rest@)[j] == rest@[j]@);
                assert(rest@[j] == before[j + 1]);
                assert(order_rows(before)[j + 1] == before[j + 1]@);
                assert(all.subrange(i, all.len() as int)[j + 1] == all[i + 1 + j]);
            }
            assert(order_rows(rest@) =~= all.subrange(i + 1, all.len() as int));
        }
        let ghost next = all.subrange(0, i + 1);
        assert(next.drop_last() =~= all.subrange(0, i));
        assert(next.last() == all[i]);
        match parse_open_order(row) {
            Ok(info) => {
                let ghost prev = order_infos(out@);
                out.push(info);
                assert(order_infos(out@) =~= prev.push(order_info_view(info)));
            },
            Err(e) => {
                proof {
                    lemma_orders_error_prefix(all, i + 1, e@);
                }
                return Err(e);
            },
        }
        proof {
            i = i + 1;
        }
    }
    assert(all.subrange(0, i) =~= all);
    Ok(out)
}

// ---------------------------------------------------------------------------
// Account assets
// ---------------------------------------------------------------------------

/// The `GET /api/v3/account/assets` payload.
#[derive(Debug)]
pub struct UtaAccountAssetsPayload {
    pub account_equity: String,
    pub effective_equity: String,
    pub imr: String,
    pub mmr: String,
    pub margin_ratio: String,
    pub position_margin_ratio: String,
    pub usdt_unrealized_pl: String,
    pub assets: Vec<UtaAccountAssetItem>,
}

/// One coin of the unified wallet.
#[derive(Debug)]
pub struct UtaAccountAssetItem {
    pub coin: String,
    pub available: String,
    pub locked: String,
    pub equity: String,
}

/// The balance of one coin.
#[derive(Debug)]
pub struct BalanceInfo {
    pub currency: String,
    pub total: String,
    pub available: String,
    pub frozen: String,
    pub unrealized_pnl: String,
}

pub ghost struct BalanceView {
    pub currency: Seq<char>,
    pub total: Seq<char>,
    pub available: Seq<char>,
    pub frozen: Seq<char>,
    pub unrealized_pnl: Seq<char>,
}

impl View for BalanceInfo {
    type V = BalanceView;

    open spec fn view(&self) -> BalanceView {
        BalanceView {
            currency: self.currency@,
            total: self.total@,
            available: self.available@,
            frozen: self.frozen@,
            unrealized_pnl: self.unrealized_pnl@,
        }
    }
}

pub open spec fn asset_views(items: Seq<UtaAccountAssetItem>) -> Seq<(Seq<char>, Seq<char>, Seq<char>, Seq<char>)> {
    items.map_values(|a: UtaAccountAssetItem| (a.coin@, a.available@, a.locked@, a.equity@))
}

pub open spec fn balance_views(v: Seq<BalanceInfo>) -> Seq<BalanceView> {
    v.map_values(|b: BalanceInfo| b@)
}

/// What one asset row gives: nothing when a currency filter leaves it out,
/// its balance otherwise. The account's unrealized profit is carried by the
/// `USDT` row; the others carry zero.
#[verifier::opaque]
pub open spec fn balance_of(
    item: (Seq<char>, Seq<char>, Seq<char>, Seq<char>),
    currency: Option<Seq<char>>,
    unrealized: Seq<char>,
) -> Result<Option<BalanceView>, ErrorView> {
    match required_field("account assets"@, "coin"@, item.0) {
        Err(e) => Err(e),
        Ok(coin) => if currency matches Some(want) && !eq_ignore_case(want, coin) {
            Ok(None)
        } else {
            match decimal_field("account assets"@, "available"@, item.1) {
                Err(e) => Err(e),
                Ok(available) => match decimal_field("account assets"@, "locked"@, item.2) {
                    Err(e) => Err(e),
                    Ok(frozen) => match decimal_field("account assets"@, "equity"@, item.3) {
                        Err(e) => Err(e),
                        Ok(total) => Ok(
                            Some(
                                BalanceView {
                                    currency: coin,
                                    total,
                                    available,
                                    frozen,
                                    unrealized_pnl: if eq_ignore_case(coin, "USDT"@) {
                                        unrealized
                                    } else {
                                        "0"@
                                    },
                                },
                            ),
                        ),
                    },
                },
            }
        },
    }
}

/// The balances of the selected rows, in row order; the first bad row is
/// the error.
pub open spec fn balance_rows(
    items: Seq<(Seq<char>, Seq<char>, Seq<char>, Seq<char>)>,
    currency: Option<Seq<char>>,
    unrealized: Seq<char>,
) -> Result<Seq<BalanceView>, ErrorView>
    decreases items.len(),
{
    if items.len() == 0 {
        Ok(Seq::empty())
    } else {
        match balance_rows(items.drop_last(), currency, unrealized) {
            Err(e) => Err(e),
            Ok(prev) => match balance_of(items.last(), currency, unrealized) {
                Err(e) => Err(e),
                Ok(None) => Ok(prev),
                Ok(Some(b)) => Ok(prev.push(b)),
            },
        }
    }
}

/// Balances keyed by currency; a later row of a currency replaces an
/// earlier one.
pub open spec fn balance_map(rows: Seq<BalanceView>) -> Map<Seq<char>, BalanceView>
    decreases rows.len(),
{
    if rows.len() == 0 {
        Map::empty()
    } else {
        balance_map(rows.drop_last()).insert(rows.last().currency, rows.last())
    }
}

/// No currency occurs twice.
pub open spec fn currencies_unique(rows: Seq<BalanceView>) -> bool {
    forall|i: int, j: int|
        0 <= i < j < rows.len() ==> (#[trigger] rows[i]).currency != (#[trigger] rows[j]).currency
}

proof fn lemma_balance_map_unique(rows: Seq<BalanceView>)
    requires
        currencies_unique(rows),
    ensures
        forall|k: Seq<char>|
            balance_map(rows).contains_key(k) <==> exists|i: int|
                0 <= i < rows.len() && (#[trigger] rows[i]).currency == k,
        forall|i: int| 0 <= i < rows.len() ==> balance_map(rows)[(#[trigger] rows[i]).currency] == rows[i],
    decreases rows.len(),
{
    if rows.len() > 0 {
        let prev = rows.drop_last();
        assert(currencies_unique(prev)) by {
            assert forall|i: int, j: int| 0 <= i < j < prev.len() implies (#[trigger] prev[i]).currency
                != (#[trigger] prev[j]).currency by {
                assert(prev[i] == rows[i] && prev[j] == rows[j]);
            }
        }
        lemma_balance_map_unique(prev);
        assert forall|k: Seq<char>| balance_map(rows).contains_key(k) <==> exists|i: int|
            0 <= i < rows.len() && (#[trigger] rows[i]).currency == k by {
            assert(balance_map(rows) == balance_map(prev).insert(rows.last().currency, rows.last()));
            if balance_map(rows).contains_key(k) {
                if k == rows.last().currency {
                    assert(rows[rows.len() - 1].currency == k);
                } else {
                    assert(balance_map(prev).contains_key(k));
                    let i = choose|i: int| 0 <= i < prev.len() && (#[trigger] prev[i]).currency == k;
                    assert(rows[i] == prev[i]);
                }
            }
            if exists|i: int| 0 <= i < rows.len() && (#[trigger] rows[i]).currency == k {
                let i = choose|i: int| 0 <= i < rows.len() && (#[trigger] rows[i]).currency == k;
                if i < prev.len() {
                    assert(prev[i] == rows[i]);
                    assert(balance_map(prev).contains_key(k));
                } else {
                    assert(rows[i] == rows.last());
                }
            }
        }
        assert forall|i: int| 0 <= i < rows.len() implies balance_map(rows)[(#[trigger] rows[i]).currency]
            == rows[i] by {
            if i < prev.len() {
                assert(prev[i] == rows[i]);
                assert(rows[i].currency != rows.last().currency);
            }
        }
    }
}

/// Replacing the balance of a currency that is present is inserting it.
proof fn lemma_replace_balance(rows: Seq<BalanceView>, j: int, b: BalanceView)
    requires
        currencies_unique(rows),
        0 <= j < rows.len(),
        rows[j].currency == b.currency,
    ensures
        currencies_unique(rows.update(j, b)),
        balance_map(rows.update(j, b)) == balance_map(rows).insert(b.currency, b),
{
    let next = rows.update(j, b);
    assert(currencies_unique(next)) by {
        assert forall|x: int, y: int| 0 <= x < y < next.len() implies (#[trigger] next[x]).currency
            != (#[trigger] next[y]).currency by {
            assert(next[x].currency == rows[x].currency);
            assert(next[y].currency == rows[y].currency);
        }
    }
    lemma_balance_map_unique(rows);
    lemma_balance_map_unique(next);
    let lhs = balance_map(next);
    let rhs = balance_map(rows).insert(b.currency, b);
    assert forall|k: Seq<char>| lhs.contains_key(k) <==> rhs.contains_key(k) by {
        if lhs.contains_key(k) {
            let i = choose|i: int| 0 <= i < next.len() && (#[trigger] next[i]).currency == k;
            assert(rows[i].currency == k);
        }
        if rhs.contains_key(k) && k != b.currency {
            let i = choose|i: int| 0 <= i < rows.len() && (#[trigger] rows[i]).currency == k;
            assert(next[i].currency == k);
        }
        if k == b.currency {
            assert(next[j].currency == k);
        }
    }
    assert forall|k: Seq<char>| lhs.contains_key(k) implies lhs[k] == rhs[k] by {
        let i = choose|i: int| 0 <= i < next.len() && (#[trigger] next[i]).currency == k;
        if i == j {
            assert(lhs[next[j].currency] == next[j]);
        } else {
            assert(next[i] == rows[i]);
            assert(rows[i].currency != b.currency);
        }
    }
    assert(lhs =~= rhs);
}

pub open spec fn filter_view(currency: Option<&str>) -> Option<Seq<char>> {
    match currency {
        Some(c) => Some(c@),
        None => None,
    }
}

fn balance_item(item: &UtaAccountAssetItem, currency: Option<&str>, unrealized: &str) -> (r: Result<
    Option<BalanceInfo>,
    ExchangeError,
>)
    ensures
        match r {
            Ok(Some(b)) => balance_of(
                (item.coin@, item.available@, item.locked@, item.equity@),
                filter_view(currency),
                unrealized@,
            ) == Ok::<Option<BalanceView>, ErrorView>(Some(b@)),
            Ok(None) => balance_of(
                (item.coin@, item.available@, item.locked@, item.equity@),
                filter_view(currency),
                unrealized@,
            ) == Ok::<Option<BalanceView>, ErrorView>(None),
            Err(e) => balance_of(
                (item.coin@, item.available@, item.locked@, item.equity@),
                filter_view(currency),
                unrealized@,
            ) == Err::<Option<BalanceView>, ErrorView>(e@),
        },
{
    reveal(balance_of);
    let coin = parse_required_text("account assets", "coin", item.coin.as_str())?;
    match currency {
        Some(want) => {
            if !eq_ignore_ascii_case(want, coin.as_str()) {
                return Ok(None);
            }
        },
        None => {},
    }
    let available = parse_required_decimal("account assets", "available", item.available.as_str())?;
    let frozen = parse_required_decimal("account assets", "locked", item.locked.as_str())?;
    let total = parse_required_decimal("account assets", "equity", item.equity.as_str())?;
    let unrealized_pnl = if eq_ignore_ascii_case(coin.as_str(), "USDT") {
        unrealized.to_owned()
    } else {
        "0".to_owned()
    };
    Ok(Some(BalanceInfo { currency: coin, total, available, frozen, unrealized_pnl }))
}

fn find_currency(out: &Vec<BalanceInfo>, coin: &str) -> (r: Option<usize>)
    ensures
        match r {
            Some(j) => j < out@.len() && out@[j as int].currency@ == coin@,
            None => forall|j: int| 0 <= j < out@.len() ==> (#[trigger] out@[j]).currency@ != coin@,
        },
{
    let n = out.len();
    let mut j: usize = 0;
    while j < n
        invariant
            n == out@.len(),
            j <= n,
            forall|k: int| 0 <= k < j ==> (#[trigger] out@[k]).currency@ != coin@,
        decreases n - j,
    {
        if str_eq(out[j].currency.as_str(), coin) {
            return Some(j);
        }
        j = j + 1;
    }
    None
}

proof fn lemma_balance_rows_error_prefix(
    items: Seq<(Seq<char>, Seq<char>, Seq<char>, Seq<char>)>,
    currency: Option<Seq<char>>,
    unrealized: Seq<char>,
    k: int,
    e: ErrorView,
)
    requires
        0 < k <= items.len(),
        balance_rows(items.subrange(0, k), currency, unrealized) == Err::<Seq<BalanceView>, ErrorView>(e),
    ensures
        balance_rows(items, currency, unrealized) == Err::<Seq<BalanceView>, ErrorView>(e),
    decreases items.len() - k,
{
    if k < items.len() {
        let next = items.subrange(0, k + 1);
        assert(next.drop_last() =~= items.subrange(0, k));
        lemma_balance_rows_error_prefix(items, currency, unrealized, k + 1, e);
    } else {
        assert(items.subrange(0, k) =~= items);
    }
}

/// The balances of the unified wallet's coins, optionally only those of one
/// currency (in any case), keyed by currency. `account_unrealized_pnl` is
/// the account's unrealized profit, which the `USDT` row carries.
pub fn parse_balance_items(
    items: &Vec<UtaAccountAssetItem>,
    currency: Option<&str>,
    account_unrealized_pnl: &str,
) -> (r: Result<Vec<BalanceInfo>, ExchangeError>)
    ensures
        match r {
            Ok(v) => match balance_rows(
                asset_views(items@),
                filter_view(currency),
                account_unrealized_pnl@,
            ) {
                Ok(rows) => currencies_unique(balance_views(v@)) && balance_map(balance_views(v@))
                    == balance_map(rows),
                Err(_) => false,
            },
            Err(e) => balance_rows(asset_views(items@), filter_view(currency), account_unrealized_pnl@)
                == Err::<Seq<BalanceView>, ErrorView>(e@),
        },
{
    let ghost all = asset_views(items@);
    let ghost filter = filter_view(currency);
    let mut out: Vec<BalanceInfo> = Vec::new();
    let ghost mut rows: Seq<BalanceView> = Seq::empty();
    let n = items.len();
    let mut i: usize = 0;
    assert(all.subrange(0, 0) =~= Seq::<(Seq<char>, Seq<char>, Seq<char>, Seq<char>)>::empty());
    assert(balance_views(out@) =~= Seq::<BalanceView>::empty());
    while i < n
        invariant
            n == items@.len(),
            all == asset_views(items@),
            filter == filter_view(currency),
            i <= n,
            balance_rows(all.subrange(0, i as int), filter, account_unrealized_pnl@) == Ok::<
                Seq<BalanceView>,
                ErrorView,
            >(rows),
            currencies_unique(balance_views(out@)),
            balance_map(balance_views(out@)) == balance_map(rows),
        decreases n - i,
    {
        let ghost next = all.subrange(0, i + 1);
        assert(next.drop_last() =~= all.subrange(0, i as int));
        assert(next.last() == all[i as int]);
        match balance_item(&items[i], currency, account_unrealized_pnl) {
            Err(e) => {
                proof {
                    lemma_balance_rows_error_prefix(all, filter, account_unrealized_pnl@, i + 1, e@);
                }
                return Err(e);
            },
            Ok(None) => {},
            Ok(Some(b)) => {
                let ghost bv = b@;
                let ghost before = balance_views(out@);
                match find_currency(&out, b.currency.as_str()) {
                    Some(j) => {
                        out.set(j, b);
                        proof {
                            assert(balance_views(out@) =~= before.update(j as int, bv));
                            lemma_replace_balance(before, j as int, bv);
                        }
                    },
                    None => {
                        out.push(b);
                        proof {
                            assert(balance_views(out@) =~= before.push(bv));
                            assert(balance_views(out@).drop_last() =~= before);
                            assert forall|x: int, y: int|
                                0 <= x < y < balance_views(out@).len() implies (#[trigger] balance_views(
                                    out@,
                                )[x]).currency != (#[trigger] balance_views(out@)[y]).currency by {
                                if y == before.len() {
                                    assert(before[x] == out@[x]@);
                                }
                            }
                        }
                    },
                }
                proof {
                    assert(rows.push(bv).drop_last() =~= rows);
                    assert(balance_map(rows.push(bv)) == balance_map(rows).insert(bv.currency, bv));
                    assert(before.push(bv).drop_last() =~= before);
                    assert(balance_map(before.push(bv)) == balance_map(before).insert(
                        bv.currency,
                        bv,
                    ));
                    assert(balance_map(balance_views(out@)) == balance_map(before).insert(
                        bv.currency,
                        bv,
                    ));
                    rows = rows.push(bv);
                }
            },
        }
        i = i + 1;
    }
    assert(all.subrange(0, n as int) =~= all);
    Ok(out)
}

/// The balances of an account assets payload.
pub fn parse_account_balances(payload: &UtaAccountAssetsPayload, currency: Option<&str>) -> (r: Result<
    Vec<BalanceInfo>,
    ExchangeError,
>)
    ensures
        match r {
            Ok(v) => match decimal_field(
                "account assets"@,
                "usdtUnrealisedPnl"@,
                payload.usdt_unrealized_pl@,
            ) {
                Ok(u) => match balance_rows(asset_views(payload.assets@), filter_view(currency), u) {
                    Ok(rows) => currencies_unique(balance_views(v@)) && balance_map(
                        balance_views(v@),
                    ) == balance_map(rows),
                    Err(_) => false,
                },
                Err(_) => false,
            },
            Err(e) => match decimal_field(
                "account assets"@,
                "usdtUnrealisedPnl"@,
                payload.usdt_unrealized_pl@,
            ) {
                Ok(u) => balance_rows(asset_views(payload.assets@), filter_view(currency), u) == Err::<
                    Seq<BalanceView>,
                    ErrorView,
                >(e@),
                Err(d) => d == e@,
            },
        },
{
    let unrealized = parse_required_decimal(
        "account assets",
        "usdtUnrealisedPnl",
        payload.usdt_unrealized_pl.as_str(),
    )?;
    parse_balance_items(&payload.assets, currency, unrealized.as_str())
}

/// Which balances an account's equity covers.
#[derive(Debug, Clone, Copy, PartialEq, Eq, Structural)]
pub enum AccountEquityScope {
    /// One equity across every product of a unified account.
    Unified,
}

/// The account-wide figures of a unified account, as decimal texts.
#[derive(Debug)]
pub struct VenueAccountSummary {
    pub venue: String,
    pub account_type: String,
    pub equity_scope: AccountEquityScope,
    pub total_equity_usd: String,
    pub total_available_balance_usd: String,
    /// What may be withdrawn; the unified account's assets do not say.
    pub withdrawable_balance_usd: Option<String>,
    pub total_initial_margin_usd: String,
    pub total_maintenance_margin_usd: String,
    pub account_im_rate: String,
    pub account_mm_rate: String,
    pub source: String,
    pub observed_at_ms: i64,
    pub freshness_ms: Option<i64>,
}

/// The six account figures, checked in this order: `accountEquity`,
/// `effEquity`, `imr`, `mmr`, `mgnRatio`, `positionMgnRatio`.
pub open spec fn account_figures(p: UtaAccountAssetsPayload) -> Result<Seq<Seq<char>>, ErrorView> {
    let s = "account assets"@;
    match decimal_field(s, "accountEquity"@, p.account_equity@) {
        Err(e) => Err(e),
        Ok(equity) => match decimal_field(s, "effEquity"@, p.effective_equity@) {
            Err(e) => Err(e),
            Ok(available) => match decimal_field(s, "imr"@, p.imr@) {
                Err(e) => Err(e),
                Ok(im) => match decimal_field(s, "mmr"@, p.mmr@) {
                    Err(e) => Err(e),
                    Ok(mm) => match decimal_field(s, "mgnRatio"@, p.margin_ratio@) {
                        Err(e) => Err(e),
                        Ok(im_rate) => match decimal_field(
                            s,
                            "positionMgnRatio"@,
                            p.position_margin_ratio@,
                        ) {
                            Err(e) => Err(e),
                            Ok(mm_rate) => Ok(seq![equity, available, im, mm, im_rate, mm_rate]),
                        },
                    },
                },
            },
        },
    }
}

/// The account summary of an account assets payload observed at
/// `observed_at_ms`.
pub fn parse_account_summary(payload: &UtaAccountAssetsPayload, observed_at_ms: i64) -> (r: Result<
    VenueAccountSummary,
    ExchangeError,
>)
    ensures
        match r {
            Ok(a) => account_figures(*payload) == Ok::<Seq<Seq<char>>, ErrorView>(
                seq![
                    a.total_equity_usd@,
                    a.total_available_balance_usd@,
                    a.total_initial_margin_usd@,
                    a.total_maintenance_margin_usd@,
                    a.account_im_rate@,
                    a.account_mm_rate@,
                ],
            ) && a.venue@ == NAME@ && a.account_type@ == "uta"@ && a.source@
                == "bitget.GET /api/v3/account/assets"@ && a.observed_at_ms == observed_at_ms
                && a.freshness_ms == Some(0i64) && a.equity_scope == AccountEquityScope::Unified
                && a.withdrawable_balance_usd is None,
            Err(e) => account_figures(*payload) == Err::<Seq<Seq<char>>, ErrorView>(e@),
        },
{
    let s = "account assets";
    let total_equity_usd = parse_required_decimal(s, "accountEquity", payload.account_equity.as_str())?;
    let total_available_balance_usd = parse_required_decimal(
        s,
        "effEquity",
        payload.effective_equity.as_str(),
    )?;
    let total_initial_margin_usd = parse_required_decimal(s, "imr", payload.imr.as_str())?;
    let total_maintenance_margin_usd = parse_required_decimal(s, "mmr", payload.mmr.as_str())?;
    let account_im_rate = parse_required_decimal(s, "mgnRatio", payload.margin_ratio.as_str())?;
    let account_mm_rate = parse_required_decimal(
        s,
        "positionMgnRatio",
        payload.position_margin_ratio.as_str(),
    )?;
    Ok(
        VenueAccountSummary {
            venue: NAME.to_owned(),
            account_type: "uta".to_owned(),
            equity_scope: AccountEquityScope::Unified,
            total_equity_usd,
            total_available_balance_usd,
            withdrawable_balance_usd: None,
            total_initial_margin_usd,
            total_maintenance_margin_usd,
            account_im_rate,
            account_mm_rate,
            source: "bitget.GET /api/v3/account/assets".to_owned(),
            observed_at_ms,
            freshness_ms: Some(0),
        },
    )
}

// ---------------------------------------------------------------------------
// Positions
// ---------------------------------------------------------------------------

/// A row of `GET /api/v3/position/current-position`.
#[derive(Debug)]
pub struct UtaPositionRow {
    pub symbol: String,
    pub hold_side: String,
    pub hold_mode: String,
    pub qty: String,
    pub avg_price: String,
    pub mark_price: String,
    pub unrealized_pl: String,
    pub leverage: String,
    pub liquidation_price: String,
    pub margin_size: String,
    pub maintenance_margin_rate: String,
}

/// An open futures position.
#[derive(Debug)]
pub struct PositionInfo {
    pub symbol: String,
    pub exchange: String,
    pub side: String,
    pub quantity: String,
    pub entry_price: String,
    pub mark_price: String,
    pub unrealized_pnl: String,
    pub leverage: String,
    pub liquidation_price: Option<String>,
    pub margin: String,
    pub maintenance_margin_ratio: String,
}

pub ghost struct PositionView {
    pub symbol: Seq<char>,
    pub exchange: Seq<char>,
    pub side: Seq<char>,
    pub quantity: Seq<char>,
    pub entry_price: Seq<char>,
    pub mark_price: Seq<char>,
    pub unrealized_pnl: Seq<char>,
    pub leverage: Seq<char>,
    pub liquidation_price: Option<Seq<char>>,
    pub margin: Seq<char>,
    pub maintenance_margin_ratio: Seq<char>,
}

impl View for PositionInfo {
    type V = PositionView;

    open spec fn view(&self) -> PositionView {
        PositionView {
            symbol: self.symbol@,
            exchange: self.exchange@,
            side: self.side@,
            quantity: self.quantity@,
            entry_price: self.entry_price@,
            mark_price: self.mark_price@,
            unrealized_pnl: self.unrealized_pnl@,
            leverage: self.leverage@,
            liquidation_price: crate::orders::text_of(self.liquidation_price),
            margin: self.margin@,
            maintenance_margin_ratio: self.maintenance_margin_ratio@,
        }
    }
}

/// The remaining members of an open position, checked in this order:
/// `posSide`, `avgPrice`, `markPrice`, `unrealisedPnl`, `leverage` (above
/// zero), `positionBalance`, `mmr` (at least zero).
#[verifier::opaque]
pub open spec fn position_members(row: UtaPositionRow) -> Result<Seq<Seq<char>>, ErrorView> {
    let s = "current position"@;
    match position_side_of(row.hold_side@) {
        None => Err(field_error(s, "posSide"@, row.hold_side@)),
        Some(side) => match decimal_field(s, "avgPrice"@, row.avg_price@) {
            Err(e) => Err(e),
            Ok(entry) => match decimal_field(s, "markPrice"@, row.mark_price@) {
                Err(e) => Err(e),
                Ok(mark) => match decimal_field(s, "unrealisedPnl"@, row.unrealized_pl@) {
                    Err(e) => Err(e),
                    Ok(upnl) => match positive_field(s, "leverage"@, row.leverage@) {
                        Err(e) => Err(e),
                        Ok(lev) => match decimal_field(s, "positionBalance"@, row.margin_size@) {
                            Err(e) => Err(e),
                            Ok(margin) => match non_negative_field(
                                s,
                                "mmr"@,
                                row.maintenance_margin_rate@,
                            ) {
                                Err(e) => Err(e),
                                Ok(mmr) => Ok(seq![side, entry, mark, upnl, lev, margin, mmr]),
                            },
                        },
                    },
                },
            },
        },
    }
}

/// What a position row reads as: nothing when its size reads as zero; the
/// liquidation price only when it reads above zero.
#[verifier::opaque]
pub open spec fn position_of(row: UtaPositionRow) -> Result<Option<PositionView>, ErrorView> {
    let s = "current position"@;
    match required_field(s, "symbol"@, row.symbol@) {
        Err(e) => Err(e),
        Ok(symbol) => match decimal_field(s, "total"@, row.qty@) {
            Err(e) => Err(e),
            Ok(qty) => if reads_zero(finite_value_of(qty)) {
                Ok(None)
            } else {
                match decimal_field(s, "liquidationPrice"@, row.liquidation_price@) {
                    Err(e) => Err(e),
                    Ok(liq) => match position_members(row) {
                        Err(e) => Err(e),
                        Ok(m) => Ok(
                            Some(
                                PositionView {
                                    symbol: strip_quote(symbol),
                                    exchange: NAME@,
                                    side: m[0],
                                    quantity: qty,
                                    entry_price: m[1],
                                    mark_price: m[2],
                                    unrealized_pnl: m[3],
                                    leverage: m[4],
                                    liquidation_price: if reads_positive(finite_value_of(liq)) {
                                        Some(liq)
                                    } else {
                                        None
                                    },
                                    margin: m[5],
                                    maintenance_margin_ratio: m[6],
                                },
                            ),
                        ),
                    },
                }
            },
        },
    }
}

/// Reads the remaining members of an open position.
fn read_position_members(row: &UtaPositionRow) -> (r: Result<
    (String, String, String, String, String, String, String),
    ExchangeError,
>)
    ensures
        match r {
            Ok((a, b, c, d, e, f, g)) => position_members(*row) == Ok::<Seq<Seq<char>>, ErrorView>(
                seq![a@, b@, c@, d@, e@, f@, g@],
            ),
            Err(e) => position_members(*row) == Err::<Seq<Seq<char>>, ErrorView>(e@),
        },
{
    reveal(position_members);
    let s = "current position";
    let side = parse_position_side(row.hold_side.as_str())?;
    let entry_price = parse_required_decimal(s, "avgPrice", row.avg_price.as_str())?;
    let mark_price = parse_required_decimal(s, "markPrice", row.mark_price.as_str())?;
    let unrealized_pnl = parse_required_decimal(s, "unrealisedPnl", row.unrealized_pl.as_str())?;
    let leverage = parse_positive_required_decimal(s, "leverage", row.leverage.as_str())?;
    let margin = parse_required_decimal(s, "positionBalance", row.margin_size.as_str())?;
    let mmr = parse_required_non_negative_decimal(s, "mmr", row.maintenance_margin_rate.as_str())?;
    Ok((side, entry_price, mark_price, unrealized_pnl, leverage, margin, mmr))
}

/// Reads one position row.
#[verifier::spinoff_prover]
#[verifier::rlimit(40)]
pub fn parse_position(row: &UtaPositionRow) -> (r: Result<Option<PositionInfo>, ExchangeError>)
    ensures
        match r {
            Ok(Some(p)) => position_of(*row) == Ok::<Option<PositionView>, ErrorView>(Some(p@)),
            Ok(None) => position_of(*row) == Ok::<Option<PositionView>, ErrorView>(None),
            Err(e) => position_of(*row) == Err::<Option<PositionView>, ErrorView>(e@),
        },
{
    reveal(position_of);
    let s = "current position";
    let symbol = parse_required_text(s, "symbol", row.symbol.as_str())?;
    let (qty, qty_value) = read_decimal(s, "total", row.qty.as_str())?;
    if is_zero_reading(&qty_value) {
        return Ok(None);
    }
    let (liquidation, liquidation_value) = read_decimal(
        s,
        "liquidationPrice",
        row.liquidation_price.as_str(),
    )?;
    let liquidation_price = if is_positive_reading(&liquidation_value) {
        Some(liquidation)
    } else {
        None
    };
    let (side, entry_price, mark_price, unrealized_pnl, leverage, margin, maintenance_margin_ratio) =
        read_position_members(row)?;
    Ok(
        Some(
            PositionInfo {
                symbol: strip_common_suffixes(symbol.as_str()),
                exchange: NAME.to_owned(),
                side,
                quantity: qty,
                entry_price,
                mark_price,
                unrealized_pnl,
                leverage,
                liquidation_price,
                margin,
                maintenance_margin_ratio,
            },
        ),
    )
}

/// The open positions of a list of rows, optionally only those of one
/// symbol, and whether any of them is held in hedge mode (whose long and
/// short legs the caller pairs). Rows whose size reads as zero are left out;
/// the first bad row is the error.
pub open spec fn positions_of(rows: Seq<UtaPositionRow>, target: Option<Seq<char>>) -> Result<
    (Seq<PositionView>, bool),
    ErrorView,
>
    decreases rows.len(),
{
    if rows.len() == 0 {
        Ok((Seq::empty(), false))
    } else {
        match positions_of(rows.drop_last(), target) {
            Err(e) => Err(e),
            Ok((prev, hedge)) => {
                let row = rows.last();
                if target matches Some(want) && row.symbol@ != want {
                    Ok((prev, hedge))
                } else {
                    match hold_mode_of(row.hold_mode@) {
                        None => Err(field_error("current position"@, "holdMode"@, row.hold_mode@)),
                        Some(mode) => match position_of(row) {
                            Err(e) => Err(e),
                            Ok(None) => Ok((prev, hedge)),
                            Ok(Some(p)) => Ok(
                                (prev.push(p), hedge || mode == BitgetHoldMode::Hedge),
                            ),
                        },
                    }
                }
            },
        }
    }
}

pub open spec fn position_views(v: Seq<PositionInfo>) -> Seq<PositionView> {
    v.map_values(|p: PositionInfo| p@)
}

proof fn lemma_positions_error_prefix(
    rows: Seq<UtaPositionRow>,
    target: Option<Seq<char>>,
    k: int,
    e: ErrorView,
)
    requires
        0 < k <= rows.len(),
        positions_of(rows.subrange(0, k), target) == Err::<(Seq<PositionView>, bool), ErrorView>(e),
    ensures
        positions_of(rows, target) == Err::<(Seq<PositionView>, bool), ErrorView>(e),
    decreases rows.len() - k,
{
    if k < rows.len() {
        let next = rows.subrange(0, k + 1);
        assert(next.drop_last() =~= rows.subrange(0, k));
        lemma_positions_error_prefix(rows, target, k + 1, e);
    } else {
        assert(rows.subrange(0, k) =~= rows);
    }
}

/// Reads the rows of a current-position response.
pub fn parse_positions(rows: &[UtaPositionRow], target: Option<&str>) -> (r: Result<
    (Vec<PositionInfo>, bool),
    ExchangeError,
>)
    ensures
        match r {
            Ok((v, hedge)) => positions_of(rows@, filter_view(target)) == Ok::<
                (Seq<PositionView>, bool),
                ErrorView,
            >((position_views(v@), hedge)),
            Err(e) => positions_of(rows@, filter_view(target)) == Err::<
                (Seq<PositionView>, bool),
                ErrorView,
            >(e@),
        },
{
    let ghost filter = filter_view(target);
    let mut out: Vec<PositionInfo> = Vec::new();
    let mut hedge_present = false;
    let n = rows.len();
    let mut i: usize = 0;
    assert(rows@.subrange(0, 0) =~= Seq::<UtaPositionRow>::empty());
    assert(position_views(out@) =~= Seq::<PositionView>::empty());
    while i < n
        invariant
            n == rows@.len(),
            filter == filter_view(target),
            i <= n,
            positions_of(rows@.subrange(0, i as int), filter) == Ok::<
                (Seq<PositionView>, bool),
                ErrorView,
            >((position_views(out@), hedge_present)),
        decreases n - i,
    {
        let ghost next = rows@.subrange(0, i + 1);
        assert(next.drop_last() =~= rows@.subrange(0, i as int));
        assert(next.last() == rows@[i as int]);
        let row = &rows[i];
        let skip = match target {
            Some(want) => !str_eq(row.symbol.as_str(), want),
            None => false,
        };
        if !skip {
            let mode = match parse_hold_mode(row.hold_mode.as_str()) {
                Ok(m) => m,
                Err(e) => {
                    proof {
                        lemma_positions_error_prefix(rows@, filter, i + 1, e@);
                    }
                    return Err(e);
                },
            };
            match parse_position(row) {
                Err(e) => {
                    proof {
                        lemma_positions_error_prefix(rows@, filter, i + 1, e@);
                    }
                    return Err(e);
                },
                Ok(None) => {},
                Ok(Some(p)) => {
                    let ghost before = position_views(out@);
                    if mode == BitgetHoldMode::Hedge {
                        hedge_present = true;
                    }
                    out.push(p);
                    assert(position_views(out@) =~= before.push(out@.last()@));
                },
            }
        }
        i = i + 1;
    }
    assert(rows@.subrange(0, n as int) =~= rows@);
    Ok((out, hedge_present))
}

// ---------------------------------------------------------------------------
// Decoding rows from JSON
// ---------------------------------------------------------------------------

/// A fee row: both members optional, `null` counting as absent.
pub open spec fn decode_fee(v: JsonValue) -> Option<(Option<Seq<char>>, Option<Seq<char>>)> {
    if !struct_shaped(v, 2) {
        None
    } else {
        match (optional_text(field(v, 0, "feeCoin"@)), optional_text(field(v, 1, "fee"@))) {
            (Ok(c), Ok(f)) => Some((c, f)),
            _ => None,
        }
    }
}

pub open spec fn decode_fees(items: Seq<JsonValue>) -> Option<Seq<(Option<Seq<char>>, Option<Seq<char>>)>>
    decreases items.len(),
{
    if items.len() == 0 {
        Some(Seq::empty())
    } else {
        match (decode_fees(items.drop_last()), decode_fee(items.last())) {
            (Some(prev), Some(f)) => Some(prev.push(f)),
            _ => None,
        }
    }
}

/// An order row: thirteen required text members, then `feeDetail`,
/// `execType` and `cancelReason`, which default to empty.
pub open spec fn decode_order_row(v: JsonValue) -> Option<OrderRowView> {
    if !struct_shaped(v, 16) {
        None
    } else {
        let r = |i: nat, k: Seq<char>| required_text(field(v, i, k));
        match (
            (r(0, "symbol"@), r(1, "orderId"@), r(2, "orderStatus"@), r(3, "orderType"@)),
            (r(4, "timeInForce"@), r(5, "side"@), r(6, "price"@), r(7, "qty"@)),
            (r(8, "cumExecQty"@), r(9, "avgPrice"@), r(10, "createdTime"@), r(11, "clientOid"@)),
            (r(12, "reduceOnly"@), list_or_default(field(v, 13, "feeDetail"@))),
            (text_or_default(field(v, 14, "execType"@)), text_or_default(field(v, 15, "cancelReason"@))),
        ) {
            (
                (Ok(symbol), Ok(order_id), Ok(order_status), Ok(order_type)),
                (Ok(time_in_force), Ok(side), Ok(price), Ok(qty)),
                (Ok(cum_exec_qty), Ok(avg_price), Ok(created_time), Ok(client_oid)),
                (Ok(reduce_only), Some(fee_items)),
                (Ok(exec_type), Ok(cancel_reason)),
            ) => match decode_fees(fee_items) {
                Some(fee_detail) => Some(
                    OrderRowView {
                        symbol,
                        order_id,
                        order_status,
                        order_type,
                        time_in_force,
                        side,
                        price,
                        qty,
                        cum_exec_qty,
                        avg_price,
                        created_time,
                        client_oid,
                        reduce_only,
                        fee_detail,
                        exec_type,
                        cancel_reason,
                    },
                ),
                None => None,
            },
            _ => None,
        }
    }
}

fn decode_fee_value(v: &JsonValue) -> (r: Option<UtaFeeDetail>)
    ensures
        match r {
            Some(f) => decode_fee(*v) == Some(fee_view(f)),
            None => decode_fee(*v).is_none(),
        },
{
    if !is_struct_shaped(v, 2) {
        return None;
    }
    let fee_coin = match decode_optional_text_field(v, 0, "feeCoin") {
        Ok(c) => c,
        Err(_) => return None,
    };
    let fee = match decode_optional_text_field(v, 1, "fee") {
        Ok(f) => f,
        Err(_) => return None,
    };
    Some(UtaFeeDetail { fee_coin, fee })
}

proof fn lemma_fees_fail(items: Seq<JsonValue>, i: int)
    requires
        0 <= i < items.len(),
        decode_fee(items[i]).is_none(),
    ensures
        decode_fees(items).is_none(),
    decreases items.len(),
{
    if i < items.len() - 1 {
        lemma_fees_fail(items.drop_last(), i);
    }
}

fn decode_fee_values(items: &Vec<JsonValue>) -> (r: Option<Vec<UtaFeeDetail>>)
    ensures
        match r {
            Some(rows) => decode_fees(items@) == Some(fee_rows(rows@)),
            None => decode_fees(items@).is_none(),
        },
{
    let mut rows: Vec<UtaFeeDetail> = Vec::new();
    let n = items.len();
    let mut i: usize = 0;
    assert(items@.subrange(0, 0) =~= Seq::<JsonValue>::empty());
    assert(fee_rows(rows@) =~= Seq::<(Option<Seq<char>>, Option<Seq<char>>)>::empty());
    while i < n
        invariant
            n == items@.len(),
            i <= n,
            decode_fees(items@.subrange(0, i as int)) == Some(fee_rows(rows@)),
        decreases n - i,
    {
        let ghost next = items@.subrange(0, i + 1);
        assert(next.drop_last() =~= items@.subrange(0, i as int));
        assert(next.last() == items@[i as int]);
        match decode_fee_value(&items[i]) {
            Some(f) => {
                let ghost before = fee_rows(rows@);
                rows.push(f);
                assert(fee_rows(rows@) =~= before.push(fee_view(rows@.last())));
            },
            None => {
                proof {
                    lemma_fees_fail(items@, i as int);
                }
                return None;
            },
        }
        i = i + 1;
    }
    assert(items@.subrange(0, n as int) =~= items@);
    Some(rows)
}

fn required_member(v: &JsonValue, index: usize, key: &str) -> (r: Option<String>)
    ensures
        match r {
            Some(t) => required_text(field(*v, index as nat, key@)) == Ok::<Seq<char>, ()>(t@),
            None => required_text(field(*v, index as nat, key@)).is_err(),
        },
{
    match decode_required_text_field(v, index, key) {
        Ok(t) => Some(t),
        Err(_) => None,
    }
}

/// Reads an order row from a JSON value, as strictly as its declaration:
/// no required member may be missing and none may have another type.
#[verifier::rlimit(40)]
pub fn decode_order(v: &JsonValue) -> (r: Option<UtaOrderRow>)
    ensures
        match r {
            Some(o) => decode_order_row(*v) == Some(o@),
            None => decode_order_row(*v).is_none(),
        },
{
    if !is_struct_shaped(v, 16) {
        return None;
    }
    let symbol = required_member(v, 0, "symbol")?;
    let order_id = required_member(v, 1, "orderId")?;
    let order_status = required_member(v, 2, "orderStatus")?;
    let order_type = required_member(v, 3, "orderType")?;
    let time_in_force = required_member(v, 4, "timeInForce")?;
    let side = required_member(v, 5, "side")?;
    let price = required_member(v, 6, "price")?;
    let qty = required_member(v, 7, "qty")?;
    let cum_exec_qty = required_member(v, 8, "cumExecQty")?;
    let avg_price = required_member(v, 9, "avgPrice")?;
    let created_time = required_member(v, 10, "createdTime")?;
    let client_oid = required_member(v, 11, "clientOid")?;
    let reduce_only = required_member(v, 12, "reduceOnly")?;
    let fee_detail = match get_field(v, 13, "feeDetail") {
        None => Vec::new(),
        Some(JsonValue::Array(items)) => decode_fee_values(items)?,
        Some(_) => return None,
    };
    let exec_type = match decode_text_field(v, 14, "execType") {
        Ok(t) => t,
        Err(_) => return None,
    };
    let cancel_reason = match decode_text_field(v, 15, "cancelReason") {
        Ok(t) => t,
        Err(_) => return None,
    };
    assert(fee_rows(fee_detail@) == match list_or_default(field(*v, 13, "feeDetail"@)) {
        Some(items) => decode_fees(items)->0,
        None => fee_rows(fee_detail@),
    }) by {
        if field(*v, 13, "feeDetail"@).is_none() {
            assert(fee_rows(fee_detail@) =~= Seq::<(Option<Seq<char>>, Option<Seq<char>>)>::empty());
        }
    }
    Some(
        UtaOrderRow {
            symbol,
            order_id,
            order_status,
            order_type,
            time_in_force,
            side,
            price,
            qty,
            cum_exec_qty,
            avg_price,
            created_time,
            client_oid,
            reduce_only,
            fee_detail,
            exec_type,
            cancel_reason,
        },
    )
}

pub ghost struct PositionRowView {
    pub symbol: Seq<char>,
    pub hold_side: Seq<char>,
    pub hold_mode: Seq<char>,
    pub qty: Seq<char>,
    pub avg_price: Seq<char>,
    pub mark_price: Seq<char>,
    pub unrealized_pl: Seq<char>,
    pub leverage: Seq<char>,
    pub liquidation_price: Seq<char>,
    pub margin_size: Seq<char>,
    pub maintenance_margin_rate: Seq<char>,
}

impl View for UtaPositionRow {
    type V = PositionRowView;

    open spec fn view(&self) -> PositionRowView {
        PositionRowView {
            symbol: self.symbol@,
            hold_side: self.hold_side@,
            hold_mode: self.hold_mode@,
            qty: self.qty@,
            avg_price: self.avg_price@,
            mark_price: self.mark_price@,
            unrealized_pl: self.unrealized_pl@,
            leverage: self.leverage@,
            liquidation_price: self.liquidation_price@,
            margin_size: self.margin_size@,
            maintenance_margin_rate: self.maintenance_margin_rate@,
        }
    }
}

/// A position row: eleven required text members.
pub open spec fn decode_position_row(v: JsonValue) -> Option<PositionRowView> {
    if !struct_shaped(v, 11) {
        None
    } else {
        let r = |i: nat, k: Seq<char>| required_text(field(v, i, k));
        match (
            (r(0, "symbol"@), r(1, "posSide"@), r(2, "holdMode"@), r(3, "total"@)),
            (r(4, "avgPrice"@), r(5, "markPrice"@), r(6, "unrealisedPnl"@), r(7, "leverage"@)),
            (r(8, "liquidationPrice"@), r(9, "positionBalance"@), r(10, "mmr"@)),
        ) {
            (
                (Ok(symbol), Ok(hold_side), Ok(hold_mode), Ok(qty)),
                (Ok(avg_price), Ok(mark_price), Ok(unrealized_pl), Ok(leverage)),
                (Ok(liquidation_price), Ok(margin_size), Ok(mmr)),
            ) => Some(
                PositionRowView {
                    symbol,
                    hold_side,
                    hold_mode,
                    qty,
                    avg_price,
                    mark_price,
                    unrealized_pl,
                    leverage,
                    liquidation_price,
                    margin_size,
                    maintenance_margin_rate: mmr,
                },
            ),
            _ => None,
        }
    }
}

/// Reads a position row from a JSON value, as strictly as its declaration.
#[verifier::rlimit(40)]
pub fn decode_position(v: &JsonValue) -> (r: Option<UtaPositionRow>)
    ensures
        match r {
            Some(row) => decode_position_row(*v) == Some(row@),
            None => decode_position_row(*v).is_none(),
        },
{
    if !is_struct_shaped(v, 11) {
        return None;
    }
    let symbol = required_member(v, 0, "symbol")?;
    let hold_side = required_member(v, 1, "posSide")?;
    let hold_mode = required_member(v, 2, "holdMode")?;
    let qty = required_member(v, 3, "total")?;
    let avg_price = required_member(v, 4, "avgPrice")?;
    let mark_price = required_member(v, 5, "markPrice")?;
    let unrealized_pl = required_member(v, 6, "unrealisedPnl")?;
    let leverage = required_member(v, 7, "leverage")?;
    let liquidation_price = required_member(v, 8, "liquidationPrice")?;
    let margin_size = required_member(v, 9, "positionBalance")?;
    let maintenance_margin_rate = required_member(v, 10, "mmr")?;
    Some(
        UtaPositionRow {
            symbol,
            hold_side,
            hold_mode,
            qty,
            avg_price,
            mark_price,
            unrealized_pl,
            leverage,
            liquidation_price,
            margin_size,
            maintenance_margin_rate,
        },
    )
}

/// A `{list}` payload: `list` must be present; `null` is an empty list.
pub open spec fn list_payload(v: JsonValue) -> Option<Seq<JsonValue>> {
    if !struct_shaped(v, 1) {
        None
    } else {
        match field(v, 0, "list"@) {
            Some(JsonValue::Null) => Some(Seq::empty()),
            Some(JsonValue::Array(items)) => Some(items@),
            _ => None,
        }
    }
}

pub open spec fn decode_order_rows(items: Seq<JsonValue>) -> Option<Seq<OrderRowView>>
    decreases items.len(),
{
    if items.len() == 0 {
        Some(Seq::empty())
    } else {
        match (decode_order_rows(items.drop_last()), decode_order_row(items.last())) {
            (Some(prev), Some(o)) => Some(prev.push(o)),
            _ => None,
        }
    }
}

pub open spec fn decode_position_rows(items: Seq<JsonValue>) -> Option<Seq<PositionRowView>>
    decreases items.len(),
{
    if items.len() == 0 {
        Some(Seq::empty())
    } else {
        match (decode_position_rows(items.drop_last()), decode_position_row(items.last())) {
            (Some(prev), Some(o)) => Some(prev.push(o)),
            _ => None,
        }
    }
}

proof fn lemma_order_rows_fail(items: Seq<JsonValue>, i: int)
    requires
        0 <= i < items.len(),
        decode_order_row(items[i]).is_none(),
    ensures
        decode_order_rows(items).is_none(),
    decreases items.len(),
{
    if i < items.len() - 1 {
        lemma_order_rows_fail(items.drop_last(), i);
    }
}

proof fn lemma_position_rows_fail(items: Seq<JsonValue>, i: int)
    requires
        0 <= i < items.len(),
        decode_position_row(items[i]).is_none(),
    ensures
        decode_position_rows(items).is_none(),
    decreases items.len(),
{
    if i < items.len() - 1 {
        lemma_position_rows_fail(items.drop_last(), i);
    }
}

/// The rows of a `{list}` payload; `Some(None)` for a `null` list.
fn list_items<'a>(v: &'a JsonValue) -> (r: Option<Option<&'a Vec<JsonValue>>>)
    ensures
        match r {
            Some(Some(items)) => list_payload(*v) == Some(items@),
            Some(None) => list_payload(*v) == Some(Seq::<JsonValue>::empty()),
            None => list_payload(*v).is_none(),
        },
{
    if !is_struct_shaped(v, 1) {
        return None;
    }
    match get_field(v, 0, "list") {
        Some(JsonValue::Null) => Some(None),
        Some(JsonValue::Array(items)) => Some(Some(items)),
        _ => None,
    }
}

/// Reads the order rows of a `{list}` payload.
pub fn decode_order_list(v: &JsonValue) -> (r: Option<Vec<UtaOrderRow>>)
    ensures
        match r {
            Some(rows) => match list_payload(*v) {
                Some(items) => decode_order_rows(items) == Some(order_rows(rows@)),
                None => false,
            },
            None => match list_payload(*v) {
                Some(items) => decode_order_rows(items).is_none(),
                None => true,
            },
        },
{
    let items = match list_items(v)? {
        Some(items) => items,
        None => {
            let rows: Vec<UtaOrderRow> = Vec::new();
            assert(order_rows(rows@) =~= Seq::<OrderRowView>::empty());
            return Some(rows);
        },
    };
    let mut rows: Vec<UtaOrderRow> = Vec::new();
    let n = items.len();
    let mut i: usize = 0;
    assert(items@.subrange(0, 0) =~= Seq::<JsonValue>::empty());
    assert(order_rows(rows@) =~= Seq::<OrderRowView>::empty());
    while i < n
        invariant
            n == items@.len(),
            list_payload(*v) == Some(items@),
            i <= n,
            decode_order_rows(items@.subrange(0, i as int)) == Some(order_rows(rows@)),
        decreases n - i,
    {
        let ghost next = items@.subrange(0, i + 1);
        assert(next.drop_last() =~= items@.subrange(0, i as int));
        assert(next.last() == items@[i as int]);
        match decode_order(&items[i]) {
            Some(o) => {
                let ghost before = order_rows(rows@);
                rows.push(o);
                assert(order_rows(rows@) =~= before.push(rows@.last()@));
            },
            None => {
                proof {
                    lemma_order_rows_fail(items@, i as int);
                }
                return None;
            },
        }
        i = i + 1;
    }
    assert(items@.subrange(0, n as int) =~= items@);
    Some(rows)
}

pub open spec fn position_row_views(rows: Seq<UtaPositionRow>) -> Seq<PositionRowView> {
    rows.map_values(|r: UtaPositionRow| r@)
}

/// Reads the position rows of a `{list}` payload.
pub fn decode_position_list(v: &JsonValue) -> (r: Option<Vec<UtaPositionRow>>)
    ensures
        match r {
            Some(rows) => match list_payload(*v) {
                Some(items) => decode_position_rows(items) == Some(position_row_views(rows@)),
                None => false,
            },
            None => match list_payload(*v) {
                Some(items) => decode_position_rows(items).is_none(),
                None => true,
            },
        },
{
    let items = match list_items(v)? {
        Some(items) => items,
        None => {
            let rows: Vec<UtaPositionRow> = Vec::new();
            assert(position_row_views(rows@) =~= Seq::<PositionRowView>::empty());
            return Some(rows);
        },
    };
    let mut rows: Vec<UtaPositionRow> = Vec::new();
    let n = items.len();
    let mut i: usize = 0;
    assert(items@.subrange(0, 0) =~= Seq::<JsonValue>::empty());
    assert(position_row_views(rows@) =~= Seq::<PositionRowView>::empty());
    while i < n
        invariant
            n == items@.len(),
            list_payload(*v) == Some(items@),
            i <= n,
            decode_position_rows(items@.subrange(0, i as int)) == Some(position_row_views(rows@)),
        decreases n - i,
    {
        let ghost next = items@.subrange(0, i + 1);
        assert(next.drop_last() =~= items@.subrange(0, i as int));
        assert(next.last() == items@[i as int]);
        match decode_position(&items[i]) {
            Some(o) => {
                let ghost before = position_row_views(rows@);
                rows.push(o);
                assert(position_row_views(rows@) =~= before.push(rows@.last()@));
            },
            None => {
                proof {
                    lemma_position_rows_fail(items@, i as int);
                }
                return None;
            },
        }
        i = i + 1;
    }
    assert(items@.subrange(0, n as int) =~= items@);
    Some(rows)
}

pub open spec fn decode_asset(v: JsonValue) -> Option<(Seq<char>, Seq<char>, Seq<char>, Seq<char>)> {
    if !struct_shaped(v, 4) {
        None
    } else {
        let r = |i: nat, k: Seq<char>| required_text(field(v, i, k));
        match (r(0, "coin"@), r(1, "available"@), r(2, "locked"@), r(3, "equity"@)) {
            (Ok(c), Ok(a), Ok(l), Ok(e)) => Some((c, a, l, e)),
            _ => None,
        }
    }
}

pub open spec fn decode_assets(items: Seq<JsonValue>) -> Option<Seq<(Seq<char>, Seq<char>, Seq<char>, Seq<char>)>>
    decreases items.len(),
{
    if items.len() == 0 {
        Some(Seq::empty())
    } else {
        match (decode_assets(items.drop_last()), decode_asset(items.last())) {
            (Some(prev), Some(a)) => Some(prev.push(a)),
            _ => None,
        }
    }
}

pub ghost struct AccountAssetsView {
    pub figures: Seq<Seq<char>>,
    pub assets: Seq<(Seq<char>, Seq<char>, Seq<char>, Seq<char>)>,
}

/// An account assets payload: seven required text members, then the
/// required `assets` array.
pub open spec fn decode_account_payload(v: JsonValue) -> Option<AccountAssetsView> {
    if !struct_shaped(v, 8) {
        None
    } else {
        let r = |i: nat, k: Seq<char>| required_text(field(v, i, k));
        match (
            (r(0, "accountEquity"@), r(1, "effEquity"@), r(2, "imr"@), r(3, "mmr"@)),
            (r(4, "mgnRatio"@), r(5, "positionMgnRatio"@), r(6, "usdtUnrealisedPnl"@)),
            field(v, 7, "assets"@),
        ) {
            (
                (Ok(equity), Ok(eff), Ok(imr), Ok(mmr)),
                (Ok(ratio), Ok(pos_ratio), Ok(upnl)),
                Some(JsonValue::Array(items)),
            ) => match decode_assets(items@) {
                Some(assets) => Some(
                    AccountAssetsView {
                        figures: seq![equity, eff, imr, mmr, ratio, pos_ratio, upnl],
                        assets,
                    },
                ),
                None => None,
            },
            _ => None,
        }
    }
}

pub open spec fn account_payload_view(p: UtaAccountAssetsPayload) -> AccountAssetsView {
    AccountAssetsView {
        figures: seq![
            p.account_equity@,
            p.effective_equity@,
            p.imr@,
            p.mmr@,
            p.margin_ratio@,
            p.position_margin_ratio@,
            p.usdt_unrealized_pl@,
        ],
        assets: asset_views(p.assets@),
    }
}

fn decode_asset_value(v: &JsonValue) -> (r: Option<UtaAccountAssetItem>)
    ensures
        match r {
            Some(a) => decode_asset(*v) == Some((a.coin@, a.available@, a.locked@, a.equity@)),
            None => decode_asset(*v).is_none(),
        },
{
    if !is_struct_shaped(v, 4) {
        return None;
    }
    let coin = required_member(v, 0, "coin")?;
    let available = required_member(v, 1, "available")?;
    let locked = required_member(v, 2, "locked")?;
    let equity = required_member(v, 3, "equity")?;
    Some(UtaAccountAssetItem { coin, available, locked, equity })
}

proof fn lemma_assets_fail(items: Seq<JsonValue>, i: int)
    requires
        0 <= i < items.len(),
        decode_asset(items[i]).is_none(),
    ensures
        decode_assets(items).is_none(),
    decreases items.len(),
{
    if i < items.len() - 1 {
        lemma_assets_fail(items.drop_last(), i);
    }
}

/// Reads an account assets payload from a JSON value.
#[verifier::rlimit(40)]
pub fn decode_account_assets(v: &JsonValue) -> (r: Option<UtaAccountAssetsPayload>)
    ensures
        match r {
            Some(p) => decode_account_payload(*v) == Some(account_payload_view(p)),
            None => decode_account_payload(*v).is_none(),
        },
{
    if !is_struct_shaped(v, 8) {
        return None;
    }
    let account_equity = required_member(v, 0, "accountEquity")?;
    let effective_equity = required_member(v, 1, "effEquity")?;
    let imr = required_member(v, 2, "imr")?;
    let mmr = required_member(v, 3, "mmr")?;
    let margin_ratio = required_member(v, 4, "mgnRatio")?;
    let position_margin_ratio = required_member(v, 5, "positionMgnRatio")?;
    let usdt_unrealized_pl = required_member(v, 6, "usdtUnrealisedPnl")?;
    let items = match get_field(v, 7, "assets") {
        Some(JsonValue::Array(items)) => items,
        _ => return None,
    };
    let mut assets: Vec<UtaAccountAssetItem> = Vec::new();
    let n = items.len();
    let mut i: usize = 0;
    assert(items@.subrange(0, 0) =~= Seq::<JsonValue>::empty());
    assert(asset_views(assets@) =~= Seq::<(Seq<char>, Seq<char>, Seq<char>, Seq<char>)>::empty());
    while i < n
        invariant
            n == items@.len(),
            field(*v, 7, "assets"@) == Some(JsonValue::Array(*items)),
            i <= n,
            decode_assets(items@.subrange(0, i as int)) == Some(asset_views(assets@)),
        decreases n - i,
    {
        let ghost next = items@.subrange(0, i + 1);
        assert(next.drop_last() =~= items@.subrange(0, i as int));
        assert(next.last() == items@[i as int]);
        match decode_asset_value(&items[i]) {
            Some(a) => {
                let ghost before = asset_views(assets@);
                assets.push(a);
                assert(asset_views(assets@) =~= before.push(
                    (
                        assets@.last().coin@,
                        assets@.last().available@,
                        assets@.last().locked@,
                        assets@.last().equity@,
                    ),
                ));
            },
            None => {
                proof {
                    lemma_assets_fail(items@, i as int);
                }
                return None;
            },
        }
        i = i + 1;
    }
    assert(items@.subrange(0, n as int) =~= items@);
    let payload = UtaAccountAssetsPayload {
        account_equity,
        effective_equity,
        imr,
        mmr,
        margin_ratio,
        position_margin_ratio,
        usdt_unrealized_pl,
        assets,
    };
    Some(payload)
}

} // verus!
