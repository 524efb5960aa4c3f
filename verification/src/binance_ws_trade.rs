//! Binance USD-M Futures WebSocket request API: the venue's names for order
//! sides, types and states, the response envelope `{status, result, error}`,
//! and the user-data stream's listen key.

use vstd::prelude::*;
use crate::error::{ErrorView, ExchangeError};
use crate::json::{
    decode_optional_text, decode_required_text, decode_text_or_default, field, get_field,
    is_struct_shaped, json_document, number_u64, optional_text, parse_json, read_u64,
    required_text, struct_shaped, text_or_default, JsonValue,
};
use crate::orders::{LiveOrderState, OrderSide, OrderStatus, OrderType};
use crate::text::{
    blank, int_text, int_to_string, is_blank, parse_u64, parse_u64_text, push_str, str_eq,
    to_upper, trim, trimmed, upper,
};

verus! {

/// The venue's name of an order side.
pub open spec fn side_name(side: OrderSide) -> Seq<char> {
    match side {
        OrderSide::Buy => "BUY"@,
        OrderSide::Sell => "SELL"@,
    }
}

/// The venue's name of an order side.
pub fn binance_side(side: OrderSide) -> (r: &'static str)
    ensures
        r@ == side_name(side),
{
    match side {
        OrderSide::Buy => "BUY",
        OrderSide::Sell => "SELL",
    }
}

/// The futures order type: post-only orders are limit orders whose time in
/// force carries the post-only flag.
pub open spec fn futures_type_name(order_type: OrderType) -> Seq<char> {
    match order_type {
        OrderType::Market => "MARKET"@,
        OrderType::Limit | OrderType::PostOnly => "LIMIT"@,
    }
}

/// The futures order type that a request names.
pub fn binance_order_type(order_type: OrderType) -> (r: &'static str)
    ensures
        r@ == futures_type_name(order_type),
{
    match order_type {
        OrderType::Market => "MARKET",
        OrderType::Limit | OrderType::PostOnly => "LIMIT",
    }
}

/// The spot order type: post-only orders are `LIMIT_MAKER`.
pub open spec fn spot_type_name(order_type: OrderType) -> Seq<char> {
    match order_type {
        OrderType::Market => "MARKET"@,
        OrderType::Limit => "LIMIT"@,
        OrderType::PostOnly => "LIMIT_MAKER"@,
    }
}

/// The spot order type that a request names.
pub fn binance_spot_order_type(order_type: OrderType) -> (r: &'static str)
    ensures
        r@ == spot_type_name(order_type),
{
    match order_type {
        OrderType::Market => "MARKET",
        OrderType::Limit => "LIMIT",
        OrderType::PostOnly => "LIMIT_MAKER",
    }
}

/// Futures and spot requests name market and limit orders alike; they
/// differ only for post-only orders, which spot names `LIMIT_MAKER`.
pub proof fn order_type_names_differ_only_for_post_only(t: OrderType)
    ensures
        (futures_type_name(t) == spot_type_name(t)) <==> !(t is PostOnly),
{
    reveal_strlit("LIMIT");
    reveal_strlit("LIMIT_MAKER");
    assert("LIMIT"@.len() != "LIMIT_MAKER"@.len());
}

/// The order status that a venue status names; statuses it does not list
/// are pending.
pub open spec fn order_status_named(s: Seq<char>) -> OrderStatus {
    if s == "NEW"@ || s == "PENDING_NEW"@ {
        OrderStatus::Open
    } else if s == "PARTIALLY_FILLED"@ {
        OrderStatus::PartiallyFilled
    } else if s == "FILLED"@ {
        OrderStatus::Filled
    } else if s == "CANCELED"@ || s == "PENDING_CANCEL"@ {
        OrderStatus::Canceled
    } else if s == "REJECTED"@ {
        OrderStatus::Rejected
    } else if s == "EXPIRED"@ || s == "EXPIRED_IN_MATCH"@ {
        OrderStatus::Expired
    } else {
        OrderStatus::Pending
    }
}

/// The order status that a venue status names.
pub fn binance_order_status(status: &str) -> (r: OrderStatus)
    ensures
        r == order_status_named(status@),
{
    if str_eq(status, "NEW") || str_eq(status, "PENDING_NEW") {
        OrderStatus::Open
    } else if str_eq(status, "PARTIALLY_FILLED") {
        OrderStatus::PartiallyFilled
    } else if str_eq(status, "FILLED") {
        OrderStatus::Filled
    } else if str_eq(status, "CANCELED") || str_eq(status, "PENDING_CANCEL") {
        OrderStatus::Canceled
    } else if str_eq(status, "REJECTED") {
        OrderStatus::Rejected
    } else if str_eq(status, "EXPIRED") || str_eq(status, "EXPIRED_IN_MATCH") {
        OrderStatus::Expired
    } else {
        OrderStatus::Pending
    }
}

/// The lifecycle state that an acknowledged status names, in any letter
/// case; both spellings of cancelled are accepted.
pub open spec fn live_state_named(s: Seq<char>) -> LiveOrderState {
    let u = upper(s);
    if u == "NEW"@ {
        LiveOrderState::Accepted
    } else if u == "PARTIALLY_FILLED"@ {
        LiveOrderState::PartiallyFilled
    } else if u == "FILLED"@ {
        LiveOrderState::Filled
    } else if u == "CANCELED"@ || u == "CANCELLED"@ {
        LiveOrderState::Cancelled
    } else if u == "REJECTED"@ {
        LiveOrderState::Rejected
    } else if u == "EXPIRED"@ {
        LiveOrderState::Failed
    } else {
        LiveOrderState::Unknown
    }
}

/// The lifecycle state that an acknowledged status names.
pub fn live_state_from_status(status: &str) -> (r: LiveOrderState)
    ensures
        r == live_state_named(status@),
{
    let u = to_upper(status);
    let s = u.as_str();
    if str_eq(s, "NEW") {
        LiveOrderState::Accepted
    } else if str_eq(s, "PARTIALLY_FILLED") {
        LiveOrderState::PartiallyFilled
    } else if str_eq(s, "FILLED") {
        LiveOrderState::Filled
    } else if str_eq(s, "CANCELED") || str_eq(s, "CANCELLED") {
        LiveOrderState::Cancelled
    } else if str_eq(s, "REJECTED") {
        LiveOrderState::Rejected
    } else if str_eq(s, "EXPIRED") {
        LiveOrderState::Failed
    } else {
        LiveOrderState::Unknown
    }
}

/// The side of a queried spot order.
pub open spec fn spot_side_of(raw: Seq<char>) -> Result<OrderSide, ErrorView> {
    if raw == "BUY"@ {
        Ok(OrderSide::Buy)
    } else if raw == "SELL"@ {
        Ok(OrderSide::Sell)
    } else {
        Err(ErrorView::Parse("binance spot side: "@ + raw))
    }
}

/// Reads the side of a queried spot order.
pub fn spot_side(raw: &str) -> (r: Result<OrderSide, ExchangeError>)
    ensures
        match r {
            Ok(s) => spot_side_of(raw@) == Ok::<OrderSide, ErrorView>(s),
            Err(e) => spot_side_of(raw@) == Err::<OrderSide, ErrorView>(e@),
        },
{
    if str_eq(raw, "BUY") {
        Ok(OrderSide::Buy)
    } else if str_eq(raw, "SELL") {
        Ok(OrderSide::Sell)
    } else {
        Err(body_error("binance spot side: ", raw))
    }
}

/// The type of a queried spot order: `LIMIT_MAKER` is post-only.
pub open spec fn spot_order_type_of(raw: Seq<char>) -> Result<OrderType, ErrorView> {
    if raw == "MARKET"@ {
        Ok(OrderType::Market)
    } else if raw == "LIMIT_MAKER"@ {
        Ok(OrderType::PostOnly)
    } else if raw == "LIMIT"@ {
        Ok(OrderType::Limit)
    } else {
        Err(ErrorView::Parse("binance spot order type: "@ + raw))
    }
}

/// Reads the type of a queried spot order.
pub fn spot_order_type(raw: &str) -> (r: Result<OrderType, ExchangeError>)
    ensures
        match r {
            Ok(t) => spot_order_type_of(raw@) == Ok::<OrderType, ErrorView>(t),
            Err(e) => spot_order_type_of(raw@) == Err::<OrderType, ErrorView>(e@),
        },
{
    if str_eq(raw, "MARKET") {
        Ok(OrderType::Market)
    } else if str_eq(raw, "LIMIT_MAKER") {
        Ok(OrderType::PostOnly)
    } else if str_eq(raw, "LIMIT") {
        Ok(OrderType::Limit)
    } else {
        Err(body_error("binance spot order type: ", raw))
    }
}

/// A spot order type read back from the name a spot request gives it is
/// that type.
pub proof fn spot_type_names_read_back(t: OrderType)
    ensures
        spot_order_type_of(spot_type_name(t)) == Ok::<OrderType, ErrorView>(t),
{
    reveal_strlit("MARKET");
    reveal_strlit("LIMIT");
    reveal_strlit("LIMIT_MAKER");
    assert("MARKET"@.len() != "LIMIT_MAKER"@.len());
    assert("MARKET"@.len() != "LIMIT"@.len());
    assert("LIMIT"@.len() != "LIMIT_MAKER"@.len());
}

/// Each Binance order status word names one status: `NEW` and `PENDING_NEW`
/// are open, `PARTIALLY_FILLED` partly filled, `FILLED` filled, `CANCELED`
/// and `PENDING_CANCEL` canceled, `REJECTED` rejected, `EXPIRED` and
/// `EXPIRED_IN_MATCH` expired; every word it does not list is pending.
pub proof fn binance_status_names_name_their_status(s: Seq<char>)
    ensures
        order_status_named(s) == OrderStatus::Open <==> (s == "NEW"@ || s == "PENDING_NEW"@),
        order_status_named(s) == OrderStatus::PartiallyFilled <==> s == "PARTIALLY_FILLED"@,
        order_status_named(s) == OrderStatus::Filled <==> s == "FILLED"@,
        order_status_named(s) == OrderStatus::Canceled <==> (s == "CANCELED"@ || s
            == "PENDING_CANCEL"@),
        order_status_named(s) == OrderStatus::Rejected <==> s == "REJECTED"@,
        order_status_named(s) == OrderStatus::Expired <==> (s == "EXPIRED"@ || s
            == "EXPIRED_IN_MATCH"@),
        order_status_named(s) == OrderStatus::Pending <==> !(s == "NEW"@ || s == "PENDING_NEW"@
            || s == "PARTIALLY_FILLED"@ || s == "FILLED"@ || s == "CANCELED"@ || s
            == "PENDING_CANCEL"@ || s == "REJECTED"@ || s == "EXPIRED"@ || s
            == "EXPIRED_IN_MATCH"@),
{
    reveal_strlit("NEW");
    reveal_strlit("PENDING_NEW");
    reveal_strlit("PARTIALLY_FILLED");
    reveal_strlit("FILLED");
    reveal_strlit("CANCELED");
    reveal_strlit("PENDING_CANCEL");
    reveal_strlit("REJECTED");
    reveal_strlit("EXPIRED");
    reveal_strlit("EXPIRED_IN_MATCH");
    assert("NEW"@.len() == 3);
    assert("PENDING_NEW"@.len() == 11);
    assert("PARTIALLY_FILLED"@.len() == 16);
    assert("FILLED"@.len() == 6);
    assert("CANCELED"@.len() == 8);
    assert("PENDING_CANCEL"@.len() == 14);
    assert("REJECTED"@.len() == 8);
    assert("EXPIRED"@.len() == 7);
    assert("EXPIRED_IN_MATCH"@.len() == 16);
    assert("CANCELED"@[0] != "REJECTED"@[0]);
    assert("PARTIALLY_FILLED"@[0] != "EXPIRED_IN_MATCH"@[0]);
}

/// Each acknowledged status names one lifecycle state, in any letter case:
/// `NEW` is accepted, `PARTIALLY_FILLED` partly filled, `FILLED` filled,
/// `CANCELED` and `CANCELLED` cancelled, `REJECTED` rejected, `EXPIRED`
/// failed; every other status is unknown.
pub proof fn acknowledged_statuses_name_their_state(s: Seq<char>)
    ensures
        live_state_named(s) == LiveOrderState::Accepted <==> upper(s) == "NEW"@,
        live_state_named(s) == LiveOrderState::PartiallyFilled <==> upper(s)
            == "PARTIALLY_FILLED"@,
        live_state_named(s) == LiveOrderState::Filled <==> upper(s) == "FILLED"@,
        live_state_named(s) == LiveOrderState::Cancelled <==> (upper(s) == "CANCELED"@ || upper(s)
            == "CANCELLED"@),
        live_state_named(s) == LiveOrderState::Rejected <==> upper(s) == "REJECTED"@,
        live_state_named(s) == LiveOrderState::Failed <==> upper(s) == "EXPIRED"@,
        live_state_named(s) == LiveOrderState::Unknown <==> !(upper(s) == "NEW"@ || upper(s)
            == "PARTIALLY_FILLED"@ || upper(s) == "FILLED"@ || upper(s) == "CANCELED"@ || upper(s)
            == "CANCELLED"@ || upper(s) == "REJECTED"@ || upper(s) == "EXPIRED"@),
{
    reveal_strlit("NEW");
    reveal_strlit("PARTIALLY_FILLED");
    reveal_strlit("FILLED");
    reveal_strlit("CANCELED");
    reveal_strlit("CANCELLED");
    reveal_strlit("REJECTED");
    reveal_strlit("EXPIRED");
    assert("NEW"@.len() == 3);
    assert("PARTIALLY_FILLED"@.len() == 16);
    assert("FILLED"@.len() == 6);
    assert("CANCELED"@.len() == 8);
    assert("CANCELLED"@.len() == 9);
    assert("REJECTED"@.len() == 8);
    assert("EXPIRED"@.len() == 7);
    assert("CANCELED"@[0] != "REJECTED"@[0]);
}

/// For each status word that both name, the lifecycle state an
/// acknowledgement names is the state its order status implies.
pub proof fn acknowledged_states_agree_with_statuses(s: Seq<char>)
    requires
        s == "NEW"@ || s == "PARTIALLY_FILLED"@ || s == "FILLED"@ || s == "CANCELED"@ || s
            == "REJECTED"@ || s == "EXPIRED"@,
    ensures
        live_state_named(s) == crate::orders::live_state_of(order_status_named(s)),
{
    crate::text::lemma_upper_idempotent(s);
    reveal_strlit("NEW");
    reveal_strlit("PARTIALLY_FILLED");
    reveal_strlit("FILLED");
    reveal_strlit("CANCELED");
    reveal_strlit("REJECTED");
    reveal_strlit("EXPIRED");
    assert(upper("NEW"@) =~= "NEW"@);
    assert(upper("PARTIALLY_FILLED"@) =~= "PARTIALLY_FILLED"@);
    assert(upper("FILLED"@) =~= "FILLED"@);
    assert(upper("CANCELED"@) =~= "CANCELED"@);
    assert(upper("REJECTED"@) =~= "REJECTED"@);
    assert(upper("EXPIRED"@) =~= "EXPIRED"@);
    binance_status_names_name_their_status(s);
    acknowledged_statuses_name_their_state(s);
}

/// A queried spot order's side word names its side: `BUY` and `SELL` are
/// read as the sides a request names them by; every other word is refused.
pub proof fn spot_side_words_name_their_side(raw: Seq<char>, side: OrderSide)
    ensures
        spot_side_of(raw) == Ok::<OrderSide, ErrorView>(side) <==> raw == side_name(side),
        spot_side_of(raw) is Ok <==> (raw == "BUY"@ || raw == "SELL"@),
{
    reveal_strlit("BUY");
    reveal_strlit("SELL");
    assert("BUY"@.len() != "SELL"@.len());
}

/// A queried spot order's type word names exactly the type whose request
/// name it is: `MARKET`, `LIMIT` and `LIMIT_MAKER` (post-only).
pub proof fn spot_type_words_name_their_type(raw: Seq<char>, t: OrderType)
    ensures
        spot_order_type_of(raw) == Ok::<OrderType, ErrorView>(t) <==> raw == spot_type_name(t),
        spot_order_type_of(raw) is Ok <==> (raw == "MARKET"@ || raw == "LIMIT"@ || raw
            == "LIMIT_MAKER"@),
{
    reveal_strlit("MARKET");
    reveal_strlit("LIMIT");
    reveal_strlit("LIMIT_MAKER");
    assert("MARKET"@.len() != "LIMIT_MAKER"@.len());
    assert("MARKET"@.len() != "LIMIT"@.len());
    assert("LIMIT"@.len() != "LIMIT_MAKER"@.len());
}

/// The error for an exchange order id that is not a number.
pub open spec fn non_numeric_order_id() -> ErrorView {
    ErrorView::Parse("binance spot orderId must be numeric"@)
}

/// The numeric order id that a spot order query sends.
pub fn spot_order_id(exchange_order_id: &str) -> (r: Result<u64, ExchangeError>)
    ensures
        match r {
            Ok(id) => parse_u64_text(trim(exchange_order_id@)) == Some(id),
            Err(e) => parse_u64_text(trim(exchange_order_id@)).is_none() && e@
                == non_numeric_order_id(),
        },
{
    let t = trimmed(exchange_order_id);
    match parse_u64(t.as_str()) {
        Some(id) => Ok(id),
        None => Err(ExchangeError::Parse("binance spot orderId must be numeric".to_owned())),
    }
}

/// A JSON number read as a `u16`.
pub open spec fn number_u16(v: JsonValue) -> Option<u16> {
    match number_u64(v) {
        Some(n) => if n <= 0xffff {
            Some(n as u16)
        } else {
            None
        },
        None => None,
    }
}

fn read_u16(v: &JsonValue) -> (r: Option<u16>)
    ensures
        r == number_u16(*v),
{
    match read_u64(v) {
        Some(n) => if n <= 0xffff {
            Some(n as u16)
        } else {
            None
        },
        None => None,
    }
}

/// The venue's error body: `{code, msg}`, both defaulted.
#[derive(Debug)]
pub struct WsErrorBody {
    pub code: i64,
    pub msg: String,
}

pub ghost struct ErrorBodyView {
    pub code: i64,
    pub msg: Seq<char>,
}

impl View for WsErrorBody {
    type V = ErrorBodyView;

    open spec fn view(&self) -> ErrorBodyView {
        ErrorBodyView { code: self.code, msg: self.msg@ }
    }
}

/// The error body read from a JSON value.
pub open spec fn error_body_of(v: JsonValue) -> Option<ErrorBodyView> {
    let code = crate::json::i64_or_default(field(v, 0, "code"@));
    let msg = text_or_default(field(v, 1, "msg"@));
    if struct_shaped(v, 2) && code is Ok && msg is Ok {
        Some(ErrorBodyView { code: code->Ok_0, msg: msg->Ok_0 })
    } else {
        None
    }
}

/// An optional error body: absent or `null` is none.
pub open spec fn optional_error_body(x: Option<JsonValue>) -> Result<Option<ErrorBodyView>, ()> {
    match x {
        None => Ok(None),
        Some(JsonValue::Null) => Ok(None),
        Some(v) => match error_body_of(v) {
            Some(e) => Ok(Some(e)),
            None => Err(()),
        },
    }
}

fn read_error_body(x: Option<&JsonValue>) -> (r: Result<Option<WsErrorBody>, ()>)
    ensures
        match r {
            Ok(Some(e)) => optional_error_body(crate::json::opt(x)) == Ok::<
                Option<ErrorBodyView>,
                (),
            >(Some(e@)),
            Ok(None) => optional_error_body(crate::json::opt(x)) == Ok::<
                Option<ErrorBodyView>,
                (),
            >(None),
            Err(_) => optional_error_body(crate::json::opt(x)).is_err(),
        },
{
    match x {
        None => Ok(None),
        Some(JsonValue::Null) => Ok(None),
        Some(v) => {
            if !is_struct_shaped(v, 2) {
                return Err(());
            }
            let code = match crate::json::decode_i64_or_default(get_field(v, 0, "code")) {
                Ok(c) => c,
                Err(_) => {
                    return Err(());
                },
            };
            let msg = match decode_text_or_default(get_field(v, 1, "msg")) {
                Ok(m) => m,
                Err(_) => {
                    return Err(());
                },
            };
            Ok(Some(WsErrorBody { code, msg }))
        },
    }
}

/// The venue's error for a response outside the success range: the error
/// body's code and message, or code 0 and no message without a body.
pub open spec fn venue_error(error: Option<ErrorBodyView>) -> ErrorView {
    let (code, msg) = match error {
        Some(e) => (e.code, e.msg),
        None => (0i64, Seq::<char>::empty()),
    };
    ErrorView::Api { exchange: "binance"@, code: int_text(code as int), message: msg }
}

fn venue_error_of(error: Option<WsErrorBody>) -> (e: ExchangeError)
    ensures
        e@ == venue_error(
            match error {
                Some(b) => Some(b@),
                None => None,
            },
        ),
{
    let (code, msg) = match error {
        Some(b) => (b.code, b.msg),
        None => (0i64, String::new()),
    };
    ExchangeError::Api { exchange: "binance".to_owned(), code: int_to_string(code), message: msg }
}

/// Whether a response status is in the success range `200..300`.
pub open spec fn status_ok(status: u16) -> bool {
    200 <= status && status < 300
}

/// The result of an order request: the venue's order id and status.
#[derive(Debug)]
pub struct WsOrderResult {
    pub order_id: u64,
    pub status: String,
}

pub ghost struct OrderResultView {
    pub order_id: u64,
    pub status: Seq<char>,
}

impl View for WsOrderResult {
    type V = OrderResultView;

    open spec fn view(&self) -> OrderResultView {
        OrderResultView { order_id: self.order_id, status: self.status@ }
    }
}

/// The order result read from a JSON value: `orderId` and `status` are
/// both required.
pub open spec fn order_result_of(v: JsonValue) -> Option<OrderResultView> {
    let id = field(v, 0, "orderId"@);
    let status = required_text(field(v, 1, "status"@));
    if struct_shaped(v, 2) && id is Some && number_u64(id->Some_0) is Some && status is Ok {
        Some(OrderResultView { order_id: number_u64(id->Some_0)->Some_0, status: status->Ok_0 })
    } else {
        None
    }
}

/// An optional, defaulted order result: absent or `null` is none.
pub open spec fn optional_order_result(x: Option<JsonValue>) -> Result<Option<OrderResultView>, ()> {
    match x {
        None => Ok(None),
        Some(JsonValue::Null) => Ok(None),
        Some(v) => match order_result_of(v) {
            Some(o) => Ok(Some(o)),
            None => Err(()),
        },
    }
}

fn read_order_result(x: Option<&JsonValue>) -> (r: Result<Option<WsOrderResult>, ()>)
    ensures
        match r {
            Ok(Some(o)) => optional_order_result(crate::json::opt(x)) == Ok::<
                Option<OrderResultView>,
                (),
            >(Some(o@)),
            Ok(None) => optional_order_result(crate::json::opt(x)) == Ok::<
                Option<OrderResultView>,
                (),
            >(None),
            Err(_) => optional_order_result(crate::json::opt(x)).is_err(),
        },
{
    match x {
        None => Ok(None),
        Some(JsonValue::Null) => Ok(None),
        Some(v) => {
            if !is_struct_shaped(v, 2) {
                return Err(());
            }
            let order_id = match get_field(v, 0, "orderId") {
                Some(n) => match read_u64(n) {
                    Some(id) => id,
                    None => {
                        return Err(());
                    },
                },
                None => {
                    return Err(());
                },
            };
            let status = match decode_required_text(get_field(v, 1, "status")) {
                Ok(s) => s,
                Err(_) => {
                    return Err(());
                },
            };
            Ok(Some(WsOrderResult { order_id, status }))
        },
    }
}

/// The response to an order request: `{status, result, error}`, where only
/// `status` is required.
#[derive(Debug)]
pub struct WsResponse {
    pub status: u16,
    pub result: Option<WsOrderResult>,
    pub error: Option<WsErrorBody>,
}

pub ghost struct WsResponseView {
    pub status: u16,
    pub result: Option<OrderResultView>,
    pub error: Option<ErrorBodyView>,
}

impl View for WsResponse {
    type V = WsResponseView;

    open spec fn view(&self) -> WsResponseView {
        WsResponseView {
            status: self.status,
            result: match self.result {
                Some(o) => Some(o@),
                None => None,
            },
            error: match self.error {
                Some(e) => Some(e@),
                None => None,
            },
        }
    }
}

/// The order response read from a JSON document.
pub open spec fn ws_response_of(v: JsonValue) -> Option<WsResponseView> {
    let status = field(v, 0, "status"@);
    let result = optional_order_result(field(v, 1, "result"@));
    let error = optional_error_body(field(v, 2, "error"@));
    if struct_shaped(v, 3) && status is Some && number_u16(status->Some_0) is Some && result is Ok
        && error is Ok {
        Some(
            WsResponseView {
                status: number_u16(status->Some_0)->Some_0,
                result: result->Ok_0,
                error: error->Ok_0,
            },
        )
    } else {
        None
    }
}

fn body_error(prefix: &str, text: &str) -> (e: ExchangeError)
    ensures
        e@ == ErrorView::Parse(prefix@ + text@),
{
    let mut m = String::new();
    push_str(&mut m, prefix);
    push_str(&mut m, text);
    ExchangeError::Parse(m)
}

/// The order response read from a text.
pub open spec fn ws_response_from(text: Seq<char>) -> Result<WsResponseView, ErrorView> {
    let err = ErrorView::Parse("binance ws trade response: invalid payload; body="@ + text);
    match json_document(text) {
        Some(doc) => match ws_response_of(doc) {
            Some(r) => Ok(r),
            None => Err(err),
        },
        None => Err(err),
    }
}

/// Reads a decoded order response.
pub fn ws_response_from_value(v: &JsonValue) -> (r: Option<WsResponse>)
    ensures
        match r {
            Some(w) => ws_response_of(*v) == Some(w@),
            None => ws_response_of(*v).is_none(),
        },
{
    if !is_struct_shaped(v, 3) {
        return None;
    }
    let status = match get_field(v, 0, "status") {
        Some(n) => match read_u16(n) {
            Some(s) => s,
            None => {
                return None;
            },
        },
        None => {
            return None;
        },
    };
    let result = match read_order_result(get_field(v, 1, "result")) {
        Ok(r) => r,
        Err(_) => {
            return None;
        },
    };
    let error = match read_error_body(get_field(v, 2, "error")) {
        Ok(e) => e,
        Err(_) => {
            return None;
        },
    };
    Some(WsResponse { status, result, error })
}

/// Reads the response to an order request.
pub fn parse_response(text: &str) -> (r: Result<WsResponse, ExchangeError>)
    ensures
        match r {
            Ok(w) => ws_response_from(text@) == Ok::<WsResponseView, ErrorView>(w@),
            Err(e) => ws_response_from(text@) == Err::<WsResponseView, ErrorView>(e@),
        },
{
    match parse_json(text) {
        Some(doc) => match ws_response_from_value(&doc) {
            Some(w) => Ok(w),
            None => Err(body_error("binance ws trade response: invalid payload; body=", text)),
        },
        None => Err(body_error("binance ws trade response: invalid payload; body=", text)),
    }
}

/// What an order response gives: its result under a success status, a
/// parse error when that result is missing, the venue's error otherwise.
pub open spec fn order_result_from(r: WsResponseView) -> Result<OrderResultView, ErrorView> {
    if status_ok(r.status) {
        match r.result {
            Some(o) => Ok(o),
            None => Err(ErrorView::Parse("binance ws missing result"@)),
        }
    } else {
        Err(venue_error(r.error))
    }
}

impl WsResponse {
    /// The order result of a successful response; the error otherwise.
    pub fn into_result(self) -> (r: Result<WsOrderResult, ExchangeError>)
        ensures
            match r {
                Ok(o) => order_result_from(self@) == Ok::<OrderResultView, ErrorView>(o@),
                Err(e) => order_result_from(self@) == Err::<OrderResultView, ErrorView>(e@),
            },
    {
        if 200 <= self.status && self.status < 300 {
            match self.result {
                Some(o) => Ok(o),
                None => Err(ExchangeError::Parse("binance ws missing result".to_owned())),
            }
        } else {
            venue_result_error(self.error)
        }
    }
}

fn venue_result_error<T>(error: Option<WsErrorBody>) -> (r: Result<T, ExchangeError>)
    ensures
        r matches Err(e) && e@ == venue_error(
            match error {
                Some(b) => Some(b@),
                None => None,
            },
        ),
{
    Err(venue_error_of(error))
}

/// The request that opens the user-data stream.
pub const METHOD_USER_STREAM_START: &'static str = "userDataStream.start";

/// The request that keeps the user-data stream alive.
pub const METHOD_USER_STREAM_PING: &'static str = "userDataStream.ping";

/// The request that closes the user-data stream.
pub const METHOD_USER_STREAM_STOP: &'static str = "userDataStream.stop";

/// Whether a typed envelope `{status, result, error}`, none of whose
/// members has a default, can be read from `v`: an object (where the two
/// optional members may be absent), or an array of exactly three elements.
pub open spec fn typed_envelope_shaped(v: JsonValue) -> bool {
    match v {
        JsonValue::Object(_) => true,
        JsonValue::Array(items) => items@.len() == 3,
        _ => false,
    }
}

/// What a typed response gives: its result under a success status, a
/// parse error naming `method` when that result is missing, the venue's
/// error otherwise.
pub open spec fn typed_result<T>(
    status: u16,
    result: Option<T>,
    error: Option<ErrorBodyView>,
    method: Seq<char>,
) -> Result<T, ErrorView> {
    if status_ok(status) {
        match result {
            Some(r) => Ok(r),
            None => Err(ErrorView::Parse("binance ws "@ + method + " missing result"@)),
        }
    } else {
        Err(venue_error(error))
    }
}

/// The error for a typed response that cannot be read.
pub open spec fn typed_response_error(text: Seq<char>) -> ErrorView {
    ErrorView::Parse("binance ws response: invalid payload; body="@ + text)
}

/// The listen-key result: `{listenKey}`, optional and defaulted. `None`
/// when it cannot be read; `Some(None)` for an absent result.
pub open spec fn listen_result_of(x: Option<JsonValue>) -> Option<Option<Option<Seq<char>>>> {
    match x {
        None => Some(None),
        Some(JsonValue::Null) => Some(None),
        Some(v) => {
            let key = optional_text(field(v, 0, "listenKey"@));
            if struct_shaped(v, 1) && key is Ok {
                Some(Some(key->Ok_0))
            } else {
                None
            }
        },
    }
}

/// What a listen-key response gives for `method`: the key when the result
/// carries one that is not blank.
pub open spec fn listen_key_of(text: Seq<char>, method: Seq<char>) -> Result<Seq<char>, ErrorView> {
    match json_document(text) {
        None => Err(typed_response_error(text)),
        Some(v) => {
            let status = field(v, 0, "status"@);
            let result = listen_result_of(field(v, 1, "result"@));
            let error = optional_error_body(field(v, 2, "error"@));
            if typed_envelope_shaped(v) && status is Some && number_u16(status->Some_0) is Some
                && result is Some && error is Ok {
                match typed_result(
                    number_u16(status->Some_0)->Some_0,
                    result->Some_0,
                    error->Ok_0,
                    method,
                ) {
                    Err(e) => Err(e),
                    Ok(key) => match key {
                        Some(k) => if !is_blank(k) {
                            Ok(k)
                        } else {
                            Err(ErrorView::Parse("binance ws "@ + method + " missing listenKey"@))
                        },
                        None => Err(
                            ErrorView::Parse("binance ws "@ + method + " missing listenKey"@),
                        ),
                    },
                }
            } else {
                Err(typed_response_error(text))
            }
        },
    }
}

/// A listen key that a response yields is never blank.
pub proof fn listen_keys_are_never_blank(text: Seq<char>, method: Seq<char>)
    ensures
        listen_key_of(text, method) matches Ok(k) ==> !is_blank(k),
{
}

fn read_listen_result(x: Option<&JsonValue>) -> (r: Option<Option<Option<String>>>)
    ensures
        match r {
            Some(Some(Some(k))) => listen_result_of(crate::json::opt(x)) == Some(
                Some(Some(k@)),
            ),
            Some(Some(None)) => listen_result_of(crate::json::opt(x)) == Some(
                Some(None::<Seq<char>>),
            ),
            Some(None) => listen_result_of(crate::json::opt(x)) == Some(
                None::<Option<Seq<char>>>,
            ),
            None => listen_result_of(crate::json::opt(x)).is_none(),
        },
{
    match x {
        None => Some(None),
        Some(JsonValue::Null) => Some(None),
        Some(v) => {
            if !is_struct_shaped(v, 1) {
                return None;
            }
            match decode_optional_text(get_field(v, 0, "listenKey")) {
                Ok(k) => Some(Some(k)),
                Err(_) => None,
            }
        },
    }
}

fn is_typed_envelope(v: &JsonValue) -> (r: bool)
    ensures
        r == typed_envelope_shaped(*v),
{
    match v {
        JsonValue::Object(_) => true,
        JsonValue::Array(items) => items.len() == 3,
        _ => false,
    }
}

fn missing_listen_key(method: &str) -> (e: ExchangeError)
    ensures
        e@ == ErrorView::Parse("binance ws "@ + method@ + " missing listenKey"@),
{
    let mut m = String::new();
    push_str(&mut m, "binance ws ");
    push_str(&mut m, method);
    push_str(&mut m, " missing listenKey");
    ExchangeError::Parse(m)
}

fn missing_result(method: &str) -> (e: ExchangeError)
    ensures
        e@ == ErrorView::Parse("binance ws "@ + method@ + " missing result"@),
{
    let mut m = String::new();
    push_str(&mut m, "binance ws ");
    push_str(&mut m, method);
    push_str(&mut m, " missing result");
    ExchangeError::Parse(m)
}

/// Reads the response to a user-data stream start or keep-alive request
/// `method`: the listen key it returns.
pub fn listen_key_from_response(text: &str, method: &str) -> (r: Result<String, ExchangeError>)
    ensures
        match r {
            Ok(k) => listen_key_of(text@, method@) == Ok::<Seq<char>, ErrorView>(k@),
            Err(e) => listen_key_of(text@, method@) == Err::<Seq<char>, ErrorView>(e@),
        },
{
    let v = match parse_json(text) {
        Some(doc) => doc,
        None => {
            return Err(body_error("binance ws response: invalid payload; body=", text));
        },
    };
    if !is_typed_envelope(&v) {
        return Err(body_error("binance ws response: invalid payload; body=", text));
    }
    let status = match get_field(&v, 0, "status") {
        Some(n) => match read_u16(n) {
            Some(s) => s,
            None => {
                return Err(body_error("binance ws response: invalid payload; body=", text));
            },
        },
        None => {
            return Err(body_error("binance ws response: invalid payload; body=", text));
        },
    };
    let result = match read_listen_result(get_field(&v, 1, "result")) {
        Some(r) => r,
        None => {
            return Err(body_error("binance ws response: invalid payload; body=", text));
        },
    };
    let error = match read_error_body(get_field(&v, 2, "error")) {
        Ok(e) => e,
        Err(_) => {
            return Err(body_error("binance ws response: invalid payload; body=", text));
        },
    };
    if !(200 <= status && status < 300) {
        return venue_result_error(error);
    }
    match result {
        None => Err(missing_result(method)),
        Some(None) => Err(missing_listen_key(method)),
        Some(Some(k)) => {
            if blank(k.as_str()) {
                Err(missing_listen_key(method))
            } else {
                Ok(k)
            }
        },
    }
}

/// What the response to a stream-closing `method` gives: success when the
/// status is in the success range and a result, of any shape, is present.
pub open spec fn stream_closed_of(text: Seq<char>, method: Seq<char>) -> Result<(), ErrorView> {
    match json_document(text) {
        None => Err(typed_response_error(text)),
        Some(v) => {
            let status = field(v, 0, "status"@);
            let result = field(v, 1, "result"@);
            let present = result matches Some(x) && !(x is Null);
            let error = optional_error_body(field(v, 2, "error"@));
            if typed_envelope_shaped(v) && status is Some && number_u16(status->Some_0) is Some
                && error is Ok {
                match typed_result(
                    number_u16(status->Some_0)->Some_0,
                    if present {
                        Some(())
                    } else {
                        None
                    },
                    error->Ok_0,
                    method,
                ) {
                    Ok(()) => Ok(()),
                    Err(e) => Err(e),
                }
            } else {
                Err(typed_response_error(text))
            }
        },
    }
}

/// Reads the response to a stream-closing request `method`.
pub fn stream_closed(text: &str, method: &str) -> (r: Result<(), ExchangeError>)
    ensures
        match r {
            Ok(()) => stream_closed_of(text@, method@) == Ok::<(), ErrorView>(()),
            Err(e) => stream_closed_of(text@, method@) == Err::<(), ErrorView>(e@),
        },
{
    let v = match parse_json(text) {
        Some(doc) => doc,
        None => {
            return Err(body_error("binance ws response: invalid payload; body=", text));
        },
    };
    if !is_typed_envelope(&v) {
        return Err(body_error("binance ws response: invalid payload; body=", text));
    }
    let status = match get_field(&v, 0, "status") {
        Some(n) => match read_u16(n) {
            Some(s) => s,
            None => {
                return Err(body_error("binance ws response: invalid payload; body=", text));
            },
        },
        None => {
            return Err(body_error("binance ws response: invalid payload; body=", text));
        },
    };
    let present = match get_field(&v, 1, "result") {
        Some(JsonValue::Null) => false,
        Some(_) => true,
        None => false,
    };
    let error = match read_error_body(get_field(&v, 2, "error")) {
        Ok(e) => e,
        Err(_) => {
            return Err(body_error("binance ws response: invalid payload; body=", text));
        },
    };
    if !(200 <= status && status < 300) {
        return venue_result_error(error);
    }
    if present {
        Ok(())
    } else {
        Err(missing_result(method))
    }
}

} // verus!
