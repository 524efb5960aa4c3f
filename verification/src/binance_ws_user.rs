//! Binance USD-M futures user data stream: the account and order update
//! events, checked field by field so that no missing or malformed value is
//! replaced by a default.
//!
//! Quantities, prices and balances are kept as the decimal text the venue
//! sent, once the text is known to read as a finite number.

use vstd::prelude::*;
use crate::clock::{chrono_millis_representable, millis_in_chrono_range};
use crate::decimal::{
    is_finite_number, number_kind, parse_number_text, reads_finite, Decimal, DecimalView,
    NumberKind, NumberText,
};
use crate::error::{ErrorView, ExchangeError};
use crate::json::{
    decode_i64_or_default, decode_optional_i64, decode_optional_text, decode_required_text,
    decode_text_or_default, get, i64_or_default, is_object, json_document, member, optional_bool,
    optional_i64, optional_text, parse_json, required_text as required_member, text_or_default,
    JsonValue, decode_optional_bool, };
use crate::orders::{
    is_terminal, is_terminal_state, live_state, live_state_of, order_info_view, LiveOrderState,
    OrderInfo, OrderInfoView, OrderSide, OrderStatus, OrderType,
};
use crate::symbols::{client_id_of, client_order_id_from_str, strip_common_suffixes, strip_quote};
use crate::text::{
    debug_quote, debug_quoted, blank, int_text, is_blank, push_int, push_str, str_eq, to_upper, trim, trimmed, upper,
};

verus! {

pub const EXCHANGE: &'static str = "binance";
pub const EVENT_ACCOUNT_UPDATE: &'static str = "ACCOUNT_UPDATE";
pub const EVENT_ORDER_UPDATE: &'static str = "ORDER_TRADE_UPDATE";
/// How often the listen key must be kept alive, in seconds.
pub const USER_STREAM_KEEPALIVE_INTERVAL_SECS: u64 = 1800;
/// How long one user stream connection may live, in seconds.
pub const USER_STREAM_CONNECTION_MAX_SECS: u64 = 82800;
pub const USER_STREAM_WS_BASE: &'static str = "wss://fstream.binance.com/private";
pub const USER_STREAM_EVENTS: &'static str = "ORDER_TRADE_UPDATE/ACCOUNT_UPDATE";

// ---------------------------------------------------------------------------
// Events
// ---------------------------------------------------------------------------

#[derive(Debug)]
pub struct BinanceAccountBalanceDelta {
    pub asset: String,
    pub wallet_balance: String,
    pub cross_wallet_balance: String,
    pub balance_change: String,
}

#[derive(Debug)]
pub struct BinancePositionDelta {
    pub symbol: String,
    pub side: String,
    pub quantity: String,
    pub entry_price: String,
    pub accumulated_realized: String,
    pub unrealized_pnl: String,
    pub margin_type: String,
    pub isolated_wallet: String,
}

#[derive(Debug)]
pub struct BinanceAccountUpdate {
    pub event_time_ms: i64,
    pub transaction_time_ms: i64,
    pub reason: String,
    pub balances: Vec<BinanceAccountBalanceDelta>,
    pub positions: Vec<BinancePositionDelta>,
}

#[derive(Debug)]
pub struct BinanceOrderTradeUpdate {
    pub event_time_ms: i64,
    pub transaction_time_ms: i64,
    pub trade_time_ms: i64,
    pub client_order_id: String,
    pub execution_type: String,
    pub order_status: String,
    pub reject_reason: Option<String>,
    pub trade_id: Option<i64>,
    pub last_filled_quantity: String,
    pub last_filled_price: String,
    pub commission_asset: Option<String>,
    pub live_state: LiveOrderState,
    pub order: OrderInfo,
}

#[derive(Debug)]
pub enum BinanceUserEvent {
    Account(BinanceAccountUpdate),
    Order(Box<BinanceOrderTradeUpdate>),
}

impl BinanceOrderTradeUpdate {
    /// Whether the order will not change any more.
    pub fn is_terminal(&self) -> (r: bool)
        ensures
            r == is_terminal_state(self.live_state),
    {
        is_terminal(self.live_state)
    }
}

pub ghost struct BalanceView {
    pub asset: Seq<char>,
    pub wallet_balance: Seq<char>,
    pub cross_wallet_balance: Seq<char>,
    pub balance_change: Seq<char>,
}

pub ghost struct PositionView {
    pub symbol: Seq<char>,
    pub side: Seq<char>,
    pub quantity: Seq<char>,
    pub entry_price: Seq<char>,
    pub accumulated_realized: Seq<char>,
    pub unrealized_pnl: Seq<char>,
    pub margin_type: Seq<char>,
    pub isolated_wallet: Seq<char>,
}

pub ghost struct AccountView {
    pub event_time_ms: i64,
    pub transaction_time_ms: i64,
    pub reason: Seq<char>,
    pub balances: Seq<BalanceView>,
    pub positions: Seq<PositionView>,
}


pub ghost struct OrderUpdateView {
    pub event_time_ms: i64,
    pub transaction_time_ms: i64,
    pub trade_time_ms: i64,
    pub client_order_id: Seq<char>,
    pub execution_type: Seq<char>,
    pub order_status: Seq<char>,
    pub reject_reason: Option<Seq<char>>,
    pub trade_id: Option<i64>,
    pub last_filled_quantity: Seq<char>,
    pub last_filled_price: Seq<char>,
    pub commission_asset: Option<Seq<char>>,
    pub live_state: LiveOrderState,
    pub order: OrderInfoView,
}

pub ghost enum UserEventView {
    Account(AccountView),
    Order(OrderUpdateView),
}

pub open spec fn opt_view(o: Option<String>) -> Option<Seq<char>> {
    match o {
        Some(s) => Some(s@),
        None => None,
    }
}

impl View for BinanceAccountBalanceDelta {
    type V = BalanceView;

    open spec fn view(&self) -> BalanceView {
        BalanceView {
            asset: self.asset@,
            wallet_balance: self.wallet_balance@,
            cross_wallet_balance: self.cross_wallet_balance@,
            balance_change: self.balance_change@,
        }
    }
}

impl View for BinancePositionDelta {
    type V = PositionView;

    open spec fn view(&self) -> PositionView {
        PositionView {
            symbol: self.symbol@,
            side: self.side@,
            quantity: self.quantity@,
            entry_price: self.entry_price@,
            accumulated_realized: self.accumulated_realized@,
            unrealized_pnl: self.unrealized_pnl@,
            margin_type: self.margin_type@,
            isolated_wallet: self.isolated_wallet@,
        }
    }
}

impl View for BinanceAccountUpdate {
    type V = AccountView;

    open spec fn view(&self) -> AccountView {
        AccountView {
            event_time_ms: self.event_time_ms,
            transaction_time_ms: self.transaction_time_ms,
            reason: self.reason@,
            balances: self.balances@.map_values(|b: BinanceAccountBalanceDelta| b@),
            positions: self.positions@.map_values(|p: BinancePositionDelta| p@),
        }
    }
}


impl View for BinanceOrderTradeUpdate {
    type V = OrderUpdateView;

    open spec fn view(&self) -> OrderUpdateView {
        OrderUpdateView {
            event_time_ms: self.event_time_ms,
            transaction_time_ms: self.transaction_time_ms,
            trade_time_ms: self.trade_time_ms,
            client_order_id: self.client_order_id@,
            execution_type: self.execution_type@,
            order_status: self.order_status@,
            reject_reason: opt_view(self.reject_reason),
            trade_id: self.trade_id,
            last_filled_quantity: self.last_filled_quantity@,
            last_filled_price: self.last_filled_price@,
            commission_asset: opt_view(self.commission_asset),
            live_state: self.live_state,
            order: order_info_view(self.order),
        }
    }
}

impl View for BinanceUserEvent {
    type V = UserEventView;

    open spec fn view(&self) -> UserEventView {
        match self {
            BinanceUserEvent::Account(a) => UserEventView::Account(a@),
            BinanceUserEvent::Order(o) => UserEventView::Order((**o)@),
        }
    }
}

// ---------------------------------------------------------------------------
// Raw frames
// ---------------------------------------------------------------------------

/// The members of an order update (`o`), as decoded.
#[derive(Debug)]
pub struct RawOrderUpdate {
    pub symbol: String,
    pub client_order_id: String,
    pub reduce_only: Option<bool>,
    pub side: String,
    pub order_type: String,
    pub time_in_force: String,
    pub original_quantity: String,
    pub original_price: String,
    pub average_price: String,
    pub execution_type: String,
    pub order_status: String,
    pub reject_reason: Option<String>,
    pub order_id: i64,
    pub last_filled_quantity: String,
    pub accumulated_filled_quantity: String,
    pub last_filled_price: String,
    pub commission: String,
    pub commission_asset: Option<String>,
    pub trade_time_ms: i64,
    pub trade_id: i64,
}

pub ghost struct RawOrderView {
    pub symbol: Seq<char>,
    pub client_order_id: Seq<char>,
    pub reduce_only: Option<bool>,
    pub side: Seq<char>,
    pub order_type: Seq<char>,
    pub time_in_force: Seq<char>,
    pub original_quantity: Seq<char>,
    pub original_price: Seq<char>,
    pub average_price: Seq<char>,
    pub execution_type: Seq<char>,
    pub order_status: Seq<char>,
    pub reject_reason: Option<Seq<char>>,
    pub order_id: i64,
    pub last_filled_quantity: Seq<char>,
    pub accumulated_filled_quantity: Seq<char>,
    pub last_filled_price: Seq<char>,
    pub commission: Seq<char>,
    pub commission_asset: Option<Seq<char>>,
    pub trade_time_ms: i64,
    pub trade_id: i64,
}

impl View for RawOrderUpdate {
    type V = RawOrderView;

    open spec fn view(&self) -> RawOrderView {
        RawOrderView {
            symbol: self.symbol@,
            client_order_id: self.client_order_id@,
            reduce_only: self.reduce_only,
            side: self.side@,
            order_type: self.order_type@,
            time_in_force: self.time_in_force@,
            original_quantity: self.original_quantity@,
            original_price: self.original_price@,
            average_price: self.average_price@,
            execution_type: self.execution_type@,
            order_status: self.order_status@,
            reject_reason: opt_view(self.reject_reason),
            order_id: self.order_id,
            last_filled_quantity: self.last_filled_quantity@,
            accumulated_filled_quantity: self.accumulated_filled_quantity@,
            last_filled_price: self.last_filled_price@,
            commission: self.commission@,
            commission_asset: opt_view(self.commission_asset),
            trade_time_ms: self.trade_time_ms,
            trade_id: self.trade_id,
        }
    }
}

/// The members of an account update (`a`), as decoded. Balance rows are
/// `{a, wb, cw, bc}`; position rows are `{s, ps, pa, ep, cr, up, mt, iw}`.
#[derive(Debug)]
pub struct RawAccountUpdate {
    pub reason: String,
    pub balances: Vec<BinanceAccountBalanceDelta>,
    pub positions: Vec<BinancePositionDelta>,
}

pub ghost struct RawAccountView {
    pub reason: Seq<char>,
    pub balances: Seq<BalanceView>,
    pub positions: Seq<PositionView>,
}

impl View for RawAccountUpdate {
    type V = RawAccountView;

    open spec fn view(&self) -> RawAccountView {
        RawAccountView {
            reason: self.reason@,
            balances: self.balances@.map_values(|b: BinanceAccountBalanceDelta| b@),
            positions: self.positions@.map_values(|p: BinancePositionDelta| p@),
        }
    }
}

/// The envelope of a user stream event.
#[derive(Debug)]
pub struct RawUserEnvelope {
    pub event_type: String,
    pub event_time_ms: i64,
    pub transaction_time_ms: Option<i64>,
    pub account: Option<RawAccountUpdate>,
    pub order: Option<RawOrderUpdate>,
}

pub ghost struct RawEnvelopeView {
    pub event_type: Seq<char>,
    pub event_time_ms: i64,
    pub transaction_time_ms: Option<i64>,
    pub account: Option<RawAccountView>,
    pub order: Option<RawOrderView>,
}

impl View for RawUserEnvelope {
    type V = RawEnvelopeView;

    open spec fn view(&self) -> RawEnvelopeView {
        RawEnvelopeView {
            event_type: self.event_type@,
            event_time_ms: self.event_time_ms,
            transaction_time_ms: self.transaction_time_ms,
            account: match self.account {
                Some(a) => Some(a@),
                None => None,
            },
            order: match self.order {
                Some(o) => Some(o@),
                None => None,
            },
        }
    }
}

/// How the four numbers of a fill read once each is rounded to an IEEE
/// double, which is how the venue's fill is judged: the judgement itself is
/// made where floating point is at hand, and handed in here.
#[derive(Debug, Clone)]
pub struct FillReading {
    /// The last filled quantity is above zero.
    pub last_quantity_positive: bool,
    /// The last filled price is above zero.
    pub last_price_positive: bool,
    /// The cumulative filled quantity is no smaller than the last one.
    pub cumulative_covers_last: bool,
    /// The commission's magnitude exceeds the double epsilon.
    pub commission_above_epsilon: bool,
    /// The four doubles as `Display` writes them.
    pub last_quantity_shown: String,
    pub last_price_shown: String,
    pub cumulative_quantity_shown: String,
    pub commission_shown: String,
}

pub ghost struct FillReadingView {
    pub last_quantity_positive: bool,
    pub last_price_positive: bool,
    pub cumulative_covers_last: bool,
    pub commission_above_epsilon: bool,
    pub last_quantity_shown: Seq<char>,
    pub last_price_shown: Seq<char>,
    pub cumulative_quantity_shown: Seq<char>,
    pub commission_shown: Seq<char>,
}

impl View for FillReading {
    type V = FillReadingView;

    open spec fn view(&self) -> FillReadingView {
        FillReadingView {
            last_quantity_positive: self.last_quantity_positive,
            last_price_positive: self.last_price_positive,
            cumulative_covers_last: self.cumulative_covers_last,
            commission_above_epsilon: self.commission_above_epsilon,
            last_quantity_shown: self.last_quantity_shown@,
            last_price_shown: self.last_price_shown@,
            cumulative_quantity_shown: self.cumulative_quantity_shown@,
            commission_shown: self.commission_shown@,
        }
    }
}

/// The four number texts of an order update's fill, in the order last
/// quantity, last price, cumulative quantity, commission.
pub struct FillTexts {
    pub last_quantity: String,
    pub last_price: String,
    pub cumulative_quantity: String,
    pub commission: String,
}

// ---------------------------------------------------------------------------
// Decoding, spec
// ---------------------------------------------------------------------------

pub open spec fn decode_balance_row(v: JsonValue) -> Option<BalanceView> {
    if !is_object(v) {
        None
    } else {
        match (
            text_or_default(member(v, "a"@)),
            text_or_default(member(v, "wb"@)),
            text_or_default(member(v, "cw"@)),
            text_or_default(member(v, "bc"@)),
        ) {
            (Ok(a), Ok(wb), Ok(cw), Ok(bc)) => Some(
                BalanceView {
                    asset: a,
                    wallet_balance: wb,
                    cross_wallet_balance: cw,
                    balance_change: bc,
                },
            ),
            _ => None,
        }
    }
}

pub open spec fn decode_position_row(v: JsonValue) -> Option<PositionView> {
    if !is_object(v) {
        None
    } else {
        match (
            text_or_default(member(v, "s"@)),
            text_or_default(member(v, "ps"@)),
            text_or_default(member(v, "pa"@)),
            text_or_default(member(v, "ep"@)),
            text_or_default(member(v, "cr"@)),
            text_or_default(member(v, "up"@)),
            text_or_default(member(v, "mt"@)),
            text_or_default(member(v, "iw"@)),
        ) {
            (Ok(s), Ok(ps), Ok(pa), Ok(ep), Ok(cr), Ok(up), Ok(mt), Ok(iw)) => Some(
                PositionView {
                    symbol: s,
                    side: ps,
                    quantity: pa,
                    entry_price: ep,
                    accumulated_realized: cr,
                    unrealized_pnl: up,
                    margin_type: mt,
                    isolated_wallet: iw,
                },
            ),
            _ => None,
        }
    }
}

pub open spec fn decode_balance_rows(rows: Seq<JsonValue>) -> Option<Seq<BalanceView>>
    decreases rows.len(),
{
    if rows.len() == 0 {
        Some(Seq::empty())
    } else {
        match (decode_balance_rows(rows.drop_last()), decode_balance_row(rows.last())) {
            (Some(prev), Some(row)) => Some(prev.push(row)),
            _ => None,
        }
    }
}

pub open spec fn decode_position_rows(rows: Seq<JsonValue>) -> Option<Seq<PositionView>>
    decreases rows.len(),
{
    if rows.len() == 0 {
        Some(Seq::empty())
    } else {
        match (decode_position_rows(rows.drop_last()), decode_position_row(rows.last())) {
            (Some(prev), Some(row)) => Some(prev.push(row)),
            _ => None,
        }
    }
}

/// A defaulted list member: absent is empty, otherwise an array.
pub open spec fn list_member(x: Option<JsonValue>) -> Option<Seq<JsonValue>> {
    match x {
        None => Some(Seq::empty()),
        Some(JsonValue::Array(items)) => Some(items@),
        Some(_) => None,
    }
}

pub open spec fn decode_account(v: JsonValue) -> Option<RawAccountView> {
    if !is_object(v) {
        None
    } else {
        match (
            text_or_default(member(v, "m"@)),
            list_member(member(v, "B"@)),
            list_member(member(v, "P"@)),
        ) {
            (Ok(m), Some(b), Some(p)) => match (decode_balance_rows(b), decode_position_rows(p)) {
                (Some(balances), Some(positions)) => Some(
                    RawAccountView { reason: m, balances, positions },
                ),
                _ => None,
            },
            _ => None,
        }
    }
}

pub open spec fn decode_order(v: JsonValue) -> Option<RawOrderView> {
    if !is_object(v) {
        None
    } else {
        let t = |k: Seq<char>| text_or_default(member(v, k));
        match (
            (t("s"@), t("c"@), optional_bool(member(v, "R"@)), t("S"@), t("o"@), t("f"@)),
            (t("q"@), t("p"@), t("ap"@), t("x"@), t("X"@), optional_text(member(v, "r"@))),
            (i64_or_default(member(v, "i"@)), t("l"@), t("z"@), t("L"@), t("n"@)),
            (
                optional_text(member(v, "N"@)),
                i64_or_default(member(v, "T"@)),
                i64_or_default(member(v, "t"@)),
            ),
        ) {
            (
                (Ok(s), Ok(c), Ok(rr), Ok(side), Ok(o), Ok(f)),
                (Ok(q), Ok(p), Ok(ap), Ok(x), Ok(xs), Ok(r)),
                (Ok(i), Ok(l), Ok(z), Ok(ll), Ok(n)),
                (Ok(nn), Ok(tt), Ok(tid)),
            ) => Some(
                RawOrderView {
                    symbol: s,
                    client_order_id: c,
                    reduce_only: rr,
                    side,
                    order_type: o,
                    time_in_force: f,
                    original_quantity: q,
                    original_price: p,
                    average_price: ap,
                    execution_type: x,
                    order_status: xs,
                    reject_reason: r,
                    order_id: i,
                    last_filled_quantity: l,
                    accumulated_filled_quantity: z,
                    last_filled_price: ll,
                    commission: n,
                    commission_asset: nn,
                    trade_time_ms: tt,
                    trade_id: tid,
                },
            ),
            _ => None,
        }
    }
}

/// An optional nested object member: absent or `null` is `None`.
pub open spec fn optional_object<T>(x: Option<JsonValue>, decode: spec_fn(JsonValue) -> Option<T>) -> Option<Option<T>> {
    match x {
        None => Some(None),
        Some(JsonValue::Null) => Some(None),
        Some(v) => match decode(v) {
            Some(d) => Some(Some(d)),
            None => None,
        },
    }
}

/// The envelope decoded from a document; `None` when a member has the wrong
/// type or the required event type `e` is missing.
pub open spec fn decode_envelope(doc: JsonValue) -> Option<RawEnvelopeView> {
    if !is_object(doc) {
        None
    } else {
        match (
            required_member(member(doc, "e"@)),
            i64_or_default(member(doc, "E"@)),
            optional_i64(member(doc, "T"@)),
            optional_object(member(doc, "a"@), |v: JsonValue| decode_account(v)),
            optional_object(member(doc, "o"@), |v: JsonValue| decode_order(v)),
        ) {
            (Ok(e), Ok(et), Ok(tt), Some(a), Some(o)) => Some(
                RawEnvelopeView {
                    event_type: e,
                    event_time_ms: et,
                    transaction_time_ms: tt,
                    account: a,
                    order: o,
                },
            ),
            _ => None,
        }
    }
}


// ---------------------------------------------------------------------------
// What an event means, spec
// ---------------------------------------------------------------------------

/// The first of two possible failures.
pub open spec fn or_else(a: Option<Seq<char>>, b: Option<Seq<char>>) -> Option<Seq<char>> {
    if a is Some {
        a
    } else {
        b
    }
}

pub open spec fn timestamp_error(field: Seq<char>, ts: i64) -> Option<Seq<char>> {
    if ts <= 0 {
        Some("binance user ws invalid timestamp field "@ + field + ": "@ + int_text(ts as int))
    } else {
        None
    }
}

pub open spec fn text_error(value: Seq<char>, field: Seq<char>) -> Option<Seq<char>> {
    if is_blank(value) {
        Some("binance user ws text field "@ + field + " missing"@)
    } else {
        None
    }
}

/// How the float parser reports a text it cannot read.
pub open spec fn float_error_text(raw: Seq<char>) -> Seq<char> {
    if raw.len() == 0 {
        "cannot parse float from empty string"@
    } else {
        "invalid float literal"@
    }
}

/// A numeric field must read as a finite number.
pub open spec fn number_error(raw: Seq<char>, field: Seq<char>) -> Option<Seq<char>> {
    match number_kind(raw) {
        None => Some(
            "binance user ws numeric field "@ + field + ": "@ + float_error_text(raw) + "; value="@
                + raw,
        ),
        Some(k) => if reads_finite(k) {
            None
        } else {
            Some("binance user ws numeric field "@ + field + ": non-finite value="@ + raw)
        },
    }
}

/// The exact value of a numeric text that reads as a finite number.

/// The value of a text that reads as a finite number.
pub open spec fn finite_value_of(raw: Seq<char>) -> DecimalView {
    match number_kind(raw) {
        Some(NumberKind::Finite(d)) => d,
        _ => DecimalView { neg: false, digits: Seq::empty(), scale: 0 },
    }
}

pub open spec fn order_status_of(u: Seq<char>) -> Option<OrderStatus> {
    if u == "NEW"@ {
        Some(OrderStatus::Open)
    } else if u == "PARTIALLY_FILLED"@ {
        Some(OrderStatus::PartiallyFilled)
    } else if u == "FILLED"@ {
        Some(OrderStatus::Filled)
    } else if u == "CANCELED"@ {
        Some(OrderStatus::Canceled)
    } else if u == "EXPIRED"@ || u == "EXPIRED_IN_MATCH"@ {
        Some(OrderStatus::Expired)
    } else {
        None
    }
}

pub open spec fn is_execution_type(u: Seq<char>) -> bool {
    u == "NEW"@ || u == "CANCELED"@ || u == "CALCULATED"@ || u == "EXPIRED"@ || u == "TRADE"@ || u
        == "AMENDMENT"@
}

pub open spec fn side_of(u: Seq<char>) -> Option<OrderSide> {
    if u == "BUY"@ {
        Some(OrderSide::Buy)
    } else if u == "SELL"@ {
        Some(OrderSide::Sell)
    } else {
        None
    }
}

/// The order type of a Binance order type and time in force (both upper
/// case): a GTX limit order only adds liquidity.
pub open spec fn order_type_of(t: Seq<char>, f: Seq<char>) -> Option<OrderType> {
    if t == "MARKET"@ {
        Some(OrderType::Market)
    } else if t == "LIMIT"@ && f == "GTX"@ {
        Some(OrderType::PostOnly)
    } else if t == "LIMIT"@ && (f == "GTC"@ || f == "IOC"@ || f == "FOK"@) {
        Some(OrderType::Limit)
    } else {
        None
    }
}

pub open spec fn is_position_side(u: Seq<char>) -> bool {
    u == "BOTH"@ || u == "LONG"@ || u == "SHORT"@
}

/// A trimmed optional text, absent when blank.
pub open spec fn clean_optional(v: Option<Seq<char>>) -> Option<Seq<char>> {
    match v {
        Some(t) => if is_blank(t) {
            None
        } else {
            Some(trim(t))
        },
        None => None,
    }
}



/// The transaction time of an order event: the envelope's `T` when present,
/// the order's own `T` otherwise.
pub open spec fn order_transaction_time(env: RawEnvelopeView, o: RawOrderView) -> i64 {
    match env.transaction_time_ms {
        Some(v) => v,
        None => o.trade_time_ms,
    }
}

pub open spec fn transaction_time_error(env: RawEnvelopeView, o: RawOrderView) -> Option<Seq<char>> {
    match env.transaction_time_ms {
        Some(v) => timestamp_error("T"@, v),
        None => timestamp_error("o.T"@, o.trade_time_ms),
    }
}

/// How `{:?}` renders an optional asset: `Some("USDT")` or `None`.
pub open spec fn asset_text(a: Option<Seq<char>>) -> Seq<char> {
    match a {
        Some(t) => "Some("@ + debug_quoted(t) + ")"@,
        None => "None"@,
    }
}

/// A `TRADE` execution must carry a positive trade id, a positive last
/// quantity and price, a cumulative quantity no smaller than the last one,
/// and a commission asset whenever the commission is not zero, each number
/// judged by its double reading `rd`.
pub open spec fn trade_error(o: RawOrderView, exec_type: Seq<char>, rd: FillReadingView) -> Option<
    Seq<char>,
> {
    let asset = clean_optional(o.commission_asset);
    if exec_type != "TRADE"@ {
        None
    } else if o.trade_id <= 0 || !rd.last_quantity_positive || !rd.last_price_positive
        || !rd.cumulative_covers_last || (rd.commission_above_epsilon && asset is None) {
        Some(
            "binance user ws incoherent TRADE fill: trade_id="@ + int_text(o.trade_id as int)
                + " last_quantity="@ + rd.last_quantity_shown + " last_price="@
                + rd.last_price_shown + " cumulative_quantity="@ + rd.cumulative_quantity_shown
                + " commission="@ + rd.commission_shown + " commission_asset="@ + asset_text(asset),
        )
    } else {
        None
    }
}

/// Why an order event is refused, in the order the checks run.
pub open spec fn order_error(env: RawEnvelopeView, o: RawOrderView, rd: FillReadingView) -> Option<
    Seq<char>,
> {
    let status = upper(o.order_status);
    let exec_type = upper(o.execution_type);
    let tt = order_transaction_time(env, o);
    or_else(
        timestamp_error("E"@, env.event_time_ms),
        or_else(
            if order_status_of(status) is None {
                Some("binance user ws order status invalid: "@ + o.order_status)
            } else {
                None
            },
            or_else(
                if !is_execution_type(exec_type) {
                    Some("binance user ws execution type invalid: "@ + o.execution_type)
                } else {
                    None
                },
                or_else(
                    transaction_time_error(env, o),
                    or_else(
                        number_error(o.last_filled_quantity, "o.l"@),
                        or_else(
                            number_error(o.accumulated_filled_quantity, "o.z"@),
                            or_else(
                                number_error(o.last_filled_price, "o.L"@),
                                or_else(
                                    number_error(o.commission, "o.n"@),
                                    or_else(
                                        trade_error(o, exec_type, rd),
                                        order_info_error(o, tt),
                                    ),
                                ),
                            ),
                        ),
                    ),
                ),
            ),
        ),
    )
}

/// The checks of the order body, after the fill evidence.
pub open spec fn order_info_error(o: RawOrderView, tt: i64) -> Option<Seq<char>> {
    or_else(
        if o.order_id <= 0 {
            Some("binance user ws order id invalid: "@ + int_text(o.order_id as int))
        } else {
            None
        },
        or_else(
            text_error(o.symbol, "o.s"@),
            or_else(
                if side_of(upper(o.side)) is None {
                    Some("binance user ws order side invalid: "@ + o.side)
                } else {
                    None
                },
                or_else(
                    if order_type_of(upper(o.order_type), upper(o.time_in_force)) is None {
                        Some(
                            "binance user ws order type invalid: type="@ + o.order_type
                                + " tif="@ + o.time_in_force,
                        )
                    } else {
                        None
                    },
                    or_else(
                        number_error(o.original_quantity, "o.q"@),
                        or_else(
                            number_error(o.original_price, "o.p"@),
                            or_else(
                                number_error(o.average_price, "o.ap"@),
                                or_else(
                                    if !millis_in_chrono_range(tt) {
                                        Some(
                                            "binance user ws invalid timestamp: "@ + int_text(
                                                tt as int,
                                            ),
                                        )
                                    } else {
                                        None
                                    },
                                    or_else(
                                        timestamp_error("o.T"@, o.trade_time_ms),
                                        text_error(o.client_order_id, "o.c"@),
                                    ),
                                ),
                            ),
                        ),
                    ),
                ),
            ),
        ),
    )
}

/// The order update reported for an event that passes every check.
pub open spec fn order_update_of(env: RawEnvelopeView, o: RawOrderView) -> OrderUpdateView {
    let status = order_status_of(upper(o.order_status))->0;
    let exec_type = upper(o.execution_type);
    let tt = order_transaction_time(env, o);
    OrderUpdateView {
        event_time_ms: env.event_time_ms,
        transaction_time_ms: tt,
        trade_time_ms: o.trade_time_ms,
        client_order_id: o.client_order_id,
        execution_type: exec_type,
        order_status: upper(o.order_status),
        reject_reason: clean_optional(o.reject_reason),
        trade_id: if exec_type == "TRADE"@ {
            Some(o.trade_id)
        } else {
            None
        },
        last_filled_quantity: o.last_filled_quantity,
        last_filled_price: o.last_filled_price,
        commission_asset: clean_optional(o.commission_asset),
        live_state: live_state_of(status),
        order: OrderInfoView {
            venue_time_in_force: Some(o.time_in_force),
            client_order_id: client_id_of(o.client_order_id),
            reduce_only: o.reduce_only,
            order_id: int_text(o.order_id as int),
            symbol: strip_quote(o.symbol),
            exchange: "binance"@,
            side: side_of(upper(o.side))->0,
            order_type: order_type_of(upper(o.order_type), upper(o.time_in_force))->0,
            status,
            quantity: o.original_quantity,
            price: o.original_price,
            filled_quantity: o.accumulated_filled_quantity,
            filled_price: o.average_price,
            fees: seq![o.commission],
            execution_style: None,
            created_at_ms: tt,
        },
    }
}

#[verifier::opaque]
pub open spec fn balance_error(b: BalanceView) -> Option<Seq<char>> {
    or_else(
        text_error(b.asset, "a.B.a"@),
        or_else(
            number_error(b.wallet_balance, "a.B.wb"@),
            or_else(
                number_error(b.cross_wallet_balance, "a.B.cw"@),
                number_error(b.balance_change, "a.B.bc"@),
            ),
        ),
    )
}

#[verifier::opaque]
pub open spec fn position_error(p: PositionView) -> Option<Seq<char>> {
    or_else(
        text_error(p.symbol, "a.P.s"@),
        or_else(
            if !is_position_side(upper(p.side)) {
                Some("binance user ws position side invalid: "@ + p.side)
            } else {
                None
            },
            or_else(
                number_error(p.quantity, "a.P.pa"@),
                or_else(
                    number_error(p.entry_price, "a.P.ep"@),
                    or_else(
                        number_error(p.accumulated_realized, "a.P.cr"@),
                        or_else(
                            number_error(p.unrealized_pnl, "a.P.up"@),
                            number_error(p.isolated_wallet, "a.P.iw"@),
                        ),
                    ),
                ),
            ),
        ),
    )
}

/// The first failing row, in order.
pub open spec fn balances_error(rows: Seq<BalanceView>) -> Option<Seq<char>>
    decreases rows.len(),
{
    if rows.len() == 0 {
        None
    } else {
        or_else(balances_error(rows.drop_last()), balance_error(rows.last()))
    }
}

pub open spec fn positions_error(rows: Seq<PositionView>) -> Option<Seq<char>>
    decreases rows.len(),
{
    if rows.len() == 0 {
        None
    } else {
        or_else(positions_error(rows.drop_last()), position_error(rows.last()))
    }
}

pub open spec fn position_of(p: PositionView) -> PositionView {
    PositionView { symbol: strip_quote(p.symbol), ..p }
}

pub open spec fn account_error(env: RawEnvelopeView, a: RawAccountView) -> Option<Seq<char>> {
    or_else(
        timestamp_error("E"@, env.event_time_ms),
        or_else(
            timestamp_error(
                "T"@,
                match env.transaction_time_ms {
                    Some(v) => v,
                    None => 0,
                },
            ),
            or_else(
                text_error(a.reason, "a.m"@),
                or_else(balances_error(a.balances), positions_error(a.positions)),
            ),
        ),
    )
}

pub open spec fn account_update_of(env: RawEnvelopeView, a: RawAccountView) -> AccountView {
    AccountView {
        event_time_ms: env.event_time_ms,
        transaction_time_ms: env.transaction_time_ms->0,
        reason: a.reason,
        balances: a.balances,
        positions: a.positions.map_values(|p: PositionView| position_of(p)),
    }
}

/// What a decoded envelope means: an account update, an order update,
/// nothing for other event types, or the message of the first failing check.
pub open spec fn envelope_outcome(env: RawEnvelopeView, rd: FillReadingView) -> Result<
    Option<UserEventView>,
    Seq<char>,
> {
    if env.event_type == "ACCOUNT_UPDATE"@ {
        match env.account {
            None => Err("binance account update missing a"@),
            Some(a) => match account_error(env, a) {
                Some(e) => Err(e),
                None => Ok(Some(UserEventView::Account(account_update_of(env, a)))),
            },
        }
    } else if env.event_type == "ORDER_TRADE_UPDATE"@ {
        match env.order {
            None => Err("binance order update missing o"@),
            Some(o) => match order_error(env, o, rd) {
                Some(e) => Err(e),
                None => Ok(Some(UserEventView::Order(order_update_of(env, o)))),
            },
        }
    } else {
        Ok(None)
    }
}

/// A user stream envelope is an account update exactly when its event type
/// is `ACCOUNT_UPDATE` and an order update exactly when it is
/// `ORDER_TRADE_UPDATE`; every other event type is passed over, never
/// refused.
pub proof fn envelopes_follow_their_event_type(env: RawEnvelopeView, rd: FillReadingView)
    ensures
        envelope_outcome(env, rd) matches Ok(Some(UserEventView::Account(_))) ==> env.event_type
            == "ACCOUNT_UPDATE"@,
        envelope_outcome(env, rd) matches Ok(Some(UserEventView::Order(_))) ==> env.event_type
            == "ORDER_TRADE_UPDATE"@,
        env.event_type != "ACCOUNT_UPDATE"@ && env.event_type != "ORDER_TRADE_UPDATE"@
            ==> envelope_outcome(env, rd) == Ok::<Option<UserEventView>, Seq<char>>(None),
        env.event_type == "ACCOUNT_UPDATE"@ && env.account is None ==> envelope_outcome(env, rd)
            is Err,
        env.event_type == "ORDER_TRADE_UPDATE"@ && env.order is None ==> envelope_outcome(env, rd)
            is Err,
{
    reveal_strlit("ACCOUNT_UPDATE");
    reveal_strlit("ORDER_TRADE_UPDATE");
    assert("ACCOUNT_UPDATE"@.len() != "ORDER_TRADE_UPDATE"@.len());
}

/// The error reported for a text that is not a user stream event.
pub open spec fn event_decode_error(text: Seq<char>) -> Seq<char> {
    "binance user ws event: invalid payload; body="@ + text
}

/// What a text means as a user stream event.
pub open spec fn user_event_outcome(text: Seq<char>, rd: FillReadingView) -> Result<
    Option<UserEventView>,
    Seq<char>,
> {
    match json_document(text) {
        None => Err(event_decode_error(text)),
        Some(doc) => match decode_envelope(doc) {
            None => Err(event_decode_error(text)),
            Some(env) => envelope_outcome(env, rd),
        },
    }
}


// ---------------------------------------------------------------------------
// Decoding
// ---------------------------------------------------------------------------

fn text_member(v: &JsonValue, key: &str) -> (r: Result<String, ()>)
    ensures
        match r {
            Ok(t) => text_or_default(member(*v, key@)) == Ok::<Seq<char>, ()>(t@),
            Err(_) => text_or_default(member(*v, key@)).is_err(),
        },
{
    decode_text_or_default(get(v, key))
}

fn decode_balance(v: &JsonValue) -> (r: Option<BinanceAccountBalanceDelta>)
    ensures
        match r {
            Some(b) => decode_balance_row(*v) == Some(b@),
            None => decode_balance_row(*v).is_none(),
        },
{
    match v {
        JsonValue::Object(_) => {},
        _ => return None,
    }
    let asset = match text_member(v, "a") {
        Ok(t) => t,
        Err(_) => return None,
    };
    let wallet_balance = match text_member(v, "wb") {
        Ok(t) => t,
        Err(_) => return None,
    };
    let cross_wallet_balance = match text_member(v, "cw") {
        Ok(t) => t,
        Err(_) => return None,
    };
    let balance_change = match text_member(v, "bc") {
        Ok(t) => t,
        Err(_) => return None,
    };
    Some(BinanceAccountBalanceDelta { asset, wallet_balance, cross_wallet_balance, balance_change })
}

fn decode_position(v: &JsonValue) -> (r: Option<BinancePositionDelta>)
    ensures
        match r {
            Some(p) => decode_position_row(*v) == Some(p@),
            None => decode_position_row(*v).is_none(),
        },
{
    match v {
        JsonValue::Object(_) => {},
        _ => return None,
    }
    let symbol = match text_member(v, "s") {
        Ok(t) => t,
        Err(_) => return None,
    };
    let side = match text_member(v, "ps") {
        Ok(t) => t,
        Err(_) => return None,
    };
    let quantity = match text_member(v, "pa") {
        Ok(t) => t,
        Err(_) => return None,
    };
    let entry_price = match text_member(v, "ep") {
        Ok(t) => t,
        Err(_) => return None,
    };
    let accumulated_realized = match text_member(v, "cr") {
        Ok(t) => t,
        Err(_) => return None,
    };
    let unrealized_pnl = match text_member(v, "up") {
        Ok(t) => t,
        Err(_) => return None,
    };
    let margin_type = match text_member(v, "mt") {
        Ok(t) => t,
        Err(_) => return None,
    };
    let isolated_wallet = match text_member(v, "iw") {
        Ok(t) => t,
        Err(_) => return None,
    };
    Some(
        BinancePositionDelta {
            symbol,
            side,
            quantity,
            entry_price,
            accumulated_realized,
            unrealized_pnl,
            margin_type,
            isolated_wallet,
        },
    )
}

fn decode_balances(items: &Vec<JsonValue>) -> (r: Option<Vec<BinanceAccountBalanceDelta>>)
    ensures
        match r {
            Some(rows) => decode_balance_rows(items@) == Some(
                rows@.map_values(|b: BinanceAccountBalanceDelta| b@),
            ),
            None => decode_balance_rows(items@).is_none(),
        },
{
    let mut rows: Vec<BinanceAccountBalanceDelta> = Vec::new();
    let n = items.len();
    let mut i: usize = 0;
    while i < n
        invariant
            n == items@.len(),
            i <= n,
            decode_balance_rows(items@.subrange(0, i as int)) == Some(
                rows@.map_values(|b: BinanceAccountBalanceDelta| b@),
            ),
        decreases n - i,
    {
        let ghost next = items@.subrange(0, i + 1);
        assert(next.drop_last() =~= items@.subrange(0, i as int));
        assert(next.last() == items@[i as int]);
        match decode_balance(&items[i]) {
            None => {
                proof {
                    lemma_balance_rows_fail(items@, i as int);
                }
                return None;
            },
            Some(b) => {
                rows.push(b);
                assert(rows@.map_values(|b: BinanceAccountBalanceDelta| b@) =~= old_map_push_b(
                    rows@,
                ));
            },
        }
        i = i + 1;
    }
    assert(items@.subrange(0, n as int) =~= items@);
    Some(rows)
}

spec fn old_map_push_b(rows: Seq<BinanceAccountBalanceDelta>) -> Seq<BalanceView> {
    rows.drop_last().map_values(|b: BinanceAccountBalanceDelta| b@).push(rows.last()@)
}

proof fn lemma_balance_rows_fail(items: Seq<JsonValue>, i: int)
    requires
        0 <= i < items.len(),
        decode_balance_row(items[i]).is_none(),
    ensures
        decode_balance_rows(items).is_none(),
    decreases items.len(),
{
    if i < items.len() - 1 {
        lemma_balance_rows_fail(items.drop_last(), i);
    }
}

fn decode_positions(items: &Vec<JsonValue>) -> (r: Option<Vec<BinancePositionDelta>>)
    ensures
        match r {
            Some(rows) => decode_position_rows(items@) == Some(
                rows@.map_values(|p: BinancePositionDelta| p@),
            ),
            None => decode_position_rows(items@).is_none(),
        },
{
    let mut rows: Vec<BinancePositionDelta> = Vec::new();
    let n = items.len();
    let mut i: usize = 0;
    while i < n
        invariant
            n == items@.len(),
            i <= n,
            decode_position_rows(items@.subrange(0, i as int)) == Some(
                rows@.map_values(|p: BinancePositionDelta| p@),
            ),
        decreases n - i,
    {
        let ghost next = items@.subrange(0, i + 1);
        assert(next.drop_last() =~= items@.subrange(0, i as int));
        assert(next.last() == items@[i as int]);
        match decode_position(&items[i]) {
            None => {
                proof {
                    lemma_position_rows_fail(items@, i as int);
                }
                return None;
            },
            Some(p) => {
                rows.push(p);
                assert(rows@.map_values(|p: BinancePositionDelta| p@) =~= rows@.drop_last().map_values(
                    |p: BinancePositionDelta| p@,
                ).push(rows@.last()@));
            },
        }
        i = i + 1;
    }
    assert(items@.subrange(0, n as int) =~= items@);
    Some(rows)
}

proof fn lemma_position_rows_fail(items: Seq<JsonValue>, i: int)
    requires
        0 <= i < items.len(),
        decode_position_row(items[i]).is_none(),
    ensures
        decode_position_rows(items).is_none(),
    decreases items.len(),
{
    if i < items.len() - 1 {
        lemma_position_rows_fail(items.drop_last(), i);
    }
}

fn decode_account_member(v: &JsonValue) -> (r: Option<RawAccountUpdate>)
    ensures
        match r {
            Some(a) => decode_account(*v) == Some(a@),
            None => decode_account(*v).is_none(),
        },
{
    match v {
        JsonValue::Object(_) => {},
        _ => return None,
    }
    let reason = match text_member(v, "m") {
        Ok(t) => t,
        Err(_) => return None,
    };
    let balances = match get(v, "B") {
        None => {
            let e: Vec<BinanceAccountBalanceDelta> = Vec::new();
            assert(e@.map_values(|b: BinanceAccountBalanceDelta| b@) =~= Seq::<BalanceView>::empty());
            e
        },
        Some(JsonValue::Array(items)) => match decode_balances(items) {
            Some(rows) => rows,
            None => return None,
        },
        Some(_) => return None,
    };
    let positions = match get(v, "P") {
        None => {
            let e: Vec<BinancePositionDelta> = Vec::new();
            assert(e@.map_values(|p: BinancePositionDelta| p@) =~= Seq::<PositionView>::empty());
            e
        },
        Some(JsonValue::Array(items)) => match decode_positions(items) {
            Some(rows) => rows,
            None => return None,
        },
        Some(_) => return None,
    };
    let r = RawAccountUpdate { reason, balances, positions };
    assert(r@.balances =~= r.balances@.map_values(|b: BinanceAccountBalanceDelta| b@));
    assert(r@.positions =~= r.positions@.map_values(|p: BinancePositionDelta| p@));
    Some(r)
}

fn decode_order_member(v: &JsonValue) -> (r: Option<RawOrderUpdate>)
    ensures
        match r {
            Some(o) => decode_order(*v) == Some(o@),
            None => decode_order(*v).is_none(),
        },
{
    match v {
        JsonValue::Object(_) => {},
        _ => return None,
    }
    let symbol = match text_member(v, "s") {
        Ok(t) => t,
        Err(_) => return None,
    };
    let client_order_id = match text_member(v, "c") {
        Ok(t) => t,
        Err(_) => return None,
    };
    let reduce_only = match decode_optional_bool(get(v, "R")) {
        Ok(b) => b,
        Err(_) => return None,
    };
    let side = match text_member(v, "S") {
        Ok(t) => t,
        Err(_) => return None,
    };
    let order_type = match text_member(v, "o") {
        Ok(t) => t,
        Err(_) => return None,
    };
    let time_in_force = match text_member(v, "f") {
        Ok(t) => t,
        Err(_) => return None,
    };
    let original_quantity = match text_member(v, "q") {
        Ok(t) => t,
        Err(_) => return None,
    };
    let original_price = match text_member(v, "p") {
        Ok(t) => t,
        Err(_) => return None,
    };
    let average_price = match text_member(v, "ap") {
        Ok(t) => t,
        Err(_) => return None,
    };
    let execution_type = match text_member(v, "x") {
        Ok(t) => t,
        Err(_) => return None,
    };
    let order_status = match text_member(v, "X") {
        Ok(t) => t,
        Err(_) => return None,
    };
    let reject_reason = match decode_optional_text(get(v, "r")) {
        Ok(t) => t,
        Err(_) => return None,
    };
    let order_id = match decode_i64_or_default(get(v, "i")) {
        Ok(n) => n,
        Err(_) => return None,
    };
    let last_filled_quantity = match text_member(v, "l") {
        Ok(t) => t,
        Err(_) => return None,
    };
    let accumulated_filled_quantity = match text_member(v, "z") {
        Ok(t) => t,
        Err(_) => return None,
    };
    let last_filled_price = match text_member(v, "L") {
        Ok(t) => t,
        Err(_) => return None,
    };
    let commission = match text_member(v, "n") {
        Ok(t) => t,
        Err(_) => return None,
    };
    let commission_asset = match decode_optional_text(get(v, "N")) {
        Ok(t) => t,
        Err(_) => return None,
    };
    let trade_time_ms = match decode_i64_or_default(get(v, "T")) {
        Ok(n) => n,
        Err(_) => return None,
    };
    let trade_id = match decode_i64_or_default(get(v, "t")) {
        Ok(n) => n,
        Err(_) => return None,
    };
    Some(
        RawOrderUpdate {
            symbol,
            client_order_id,
            reduce_only,
            side,
            order_type,
            time_in_force,
            original_quantity,
            original_price,
            average_price,
            execution_type,
            order_status,
            reject_reason,
            order_id,
            last_filled_quantity,
            accumulated_filled_quantity,
            last_filled_price,
            commission,
            commission_asset,
            trade_time_ms,
            trade_id,
        },
    )
}

/// Decodes the envelope of a user stream event.
pub fn decode_user_envelope(doc: &JsonValue) -> (r: Option<RawUserEnvelope>)
    ensures
        match r {
            Some(env) => decode_envelope(*doc) == Some(env@),
            None => decode_envelope(*doc).is_none(),
        },
{
    match doc {
        JsonValue::Object(_) => {},
        _ => return None,
    }
    let event_type = match decode_required_text(get(doc, "e")) {
        Ok(t) => t,
        Err(_) => return None,
    };
    let event_time_ms = match decode_i64_or_default(get(doc, "E")) {
        Ok(n) => n,
        Err(_) => return None,
    };
    let transaction_time_ms = match decode_optional_i64(get(doc, "T")) {
        Ok(n) => n,
        Err(_) => return None,
    };
    let account = match get(doc, "a") {
        None => None,
        Some(JsonValue::Null) => None,
        Some(v) => match decode_account_member(v) {
            Some(a) => Some(a),
            None => return None,
        },
    };
    let order = match get(doc, "o") {
        None => None,
        Some(JsonValue::Null) => None,
        Some(v) => match decode_order_member(v) {
            Some(o) => Some(o),
            None => return None,
        },
    };
    Some(RawUserEnvelope { event_type, event_time_ms, transaction_time_ms, account, order })
}


// ---------------------------------------------------------------------------
// Checks
// ---------------------------------------------------------------------------

/// The error `e` reports the failure `m`.
pub open spec fn reports(e: ErrorView, m: Option<Seq<char>>) -> bool {
    m matches Some(t) && e == ErrorView::Parse(t)
}

fn parse_error_of(message: String) -> (e: ExchangeError)
    ensures
        e@ == ErrorView::Parse(message@),
{
    ExchangeError::Parse(message)
}

/// Timestamps must be positive.
pub fn parse_timestamp_ms(timestamp_ms: i64, field: &str) -> (r: Result<i64, ExchangeError>)
    ensures
        match r {
            Ok(v) => timestamp_error(field@, timestamp_ms).is_none() && v == timestamp_ms,
            Err(e) => reports(e@, timestamp_error(field@, timestamp_ms)),
        },
{
    if timestamp_ms <= 0 {
        let mut m = String::new();
        push_str(&mut m, "binance user ws invalid timestamp field ");
        push_str(&mut m, field);
        push_str(&mut m, ": ");
        push_int(&mut m, timestamp_ms);
        assert(m@ =~= "binance user ws invalid timestamp field "@ + field@ + ": "@ + int_text(
            timestamp_ms as int,
        ));
        return Err(parse_error_of(m));
    }
    Ok(timestamp_ms)
}

/// An optional timestamp, absent counting as zero, must be positive.
pub fn parse_required_timestamp_ms(value: Option<i64>, field: &str) -> (r: Result<
    i64,
    ExchangeError,
>)
    ensures
        match r {
            Ok(v) => timestamp_error(field@, value.unwrap_or(0)).is_none() && v == value.unwrap_or(
                0,
            ),
            Err(e) => reports(e@, timestamp_error(field@, value.unwrap_or(0))),
        },
{
    let v = match value {
        Some(v) => v,
        None => 0,
    };
    parse_timestamp_ms(v, field)
}

/// The transaction time of an order event: the envelope's `T` when present,
/// otherwise the order's own `T`; it must be positive.
pub fn parse_order_transaction_time(outer: Option<i64>, inner: i64) -> (r: Result<
    i64,
    ExchangeError,
>)
    ensures
        match r {
            Ok(v) => match outer {
                Some(t) => timestamp_error("T"@, t).is_none() && v == t,
                None => timestamp_error("o.T"@, inner).is_none() && v == inner,
            },
            Err(e) => match outer {
                Some(t) => reports(e@, timestamp_error("T"@, t)),
                None => reports(e@, timestamp_error("o.T"@, inner)),
            },
        },
{
    match outer {
        Some(value) => parse_timestamp_ms(value, "T"),
        None => parse_timestamp_ms(inner, "o.T"),
    }
}

/// Order ids must be positive.
pub fn parse_order_id(order_id: i64) -> (r: Result<i64, ExchangeError>)
    ensures
        match r {
            Ok(v) => order_id > 0 && v == order_id,
            Err(e) => order_id <= 0 && e@ == ErrorView::Parse(
                "binance user ws order id invalid: "@ + int_text(order_id as int),
            ),
        },
{
    if order_id <= 0 {
        let mut m = String::new();
        push_str(&mut m, "binance user ws order id invalid: ");
        push_int(&mut m, order_id);
        return Err(parse_error_of(m));
    }
    Ok(order_id)
}

/// A numeric field must read as a finite number; its exact value is returned.
pub fn parse_number(raw: &str, field: &str) -> (r: Result<Decimal, ExchangeError>)
    ensures
        match r {
            Ok(d) => number_error(raw@, field@).is_none() && d@ == finite_value_of(raw@)
                && crate::decimal::decimal_wf(d@),
            Err(e) => reports(e@, number_error(raw@, field@)),
        },
{
    let mut m = String::new();
    push_str(&mut m, "binance user ws numeric field ");
    push_str(&mut m, field);
    match parse_number_text(raw) {
        None => {
            push_str(&mut m, ": ");
            if raw.unicode_len() == 0 {
                push_str(&mut m, "cannot parse float from empty string");
            } else {
                push_str(&mut m, "invalid float literal");
            }
            push_str(&mut m, "; value=");
            push_str(&mut m, raw);
            assert(m@ =~= "binance user ws numeric field "@ + field@ + ": "@ + float_error_text(
                raw@,
            ) + "; value="@ + raw@);
            Err(parse_error_of(m))
        },
        Some(n) => {
            if is_finite_number(&n) {
                match n {
                    NumberText::Finite(d) => Ok(d),
                    _ => {
                        assert(false);
                        Err(parse_error_of(m))
                    },
                }
            } else {
                push_str(&mut m, ": non-finite value=");
                push_str(&mut m, raw);
                assert(m@ =~= "binance user ws numeric field "@ + field@ + ": non-finite value="@
                    + raw@);
                Err(parse_error_of(m))
            }
        },
    }
}

/// A text field must not be blank; the text itself is kept.
pub fn required_text(value: &String, field: &str) -> (r: Result<String, ExchangeError>)
    ensures
        match r {
            Ok(v) => text_error(value@, field@).is_none() && v@ == value@,
            Err(e) => reports(e@, text_error(value@, field@)),
        },
{
    if blank(value.as_str()) {
        let mut m = String::new();
        push_str(&mut m, "binance user ws text field ");
        push_str(&mut m, field);
        push_str(&mut m, " missing");
        assert(m@ =~= "binance user ws text field "@ + field@ + " missing"@);
        return Err(parse_error_of(m));
    }
    Ok(value.clone())
}

/// An optional text, trimmed, and absent when blank.
pub fn clean_optional_text(value: &Option<String>) -> (r: Option<String>)
    ensures
        opt_view(r) == clean_optional(opt_view(*value)),
{
    match value {
        Some(text) => {
            if blank(text.as_str()) {
                None
            } else {
                Some(trimmed(text.as_str()))
            }
        },
        None => None,
    }
}

pub fn order_side(raw: &str) -> (r: Result<OrderSide, ExchangeError>)
    ensures
        match r {
            Ok(s) => side_of(upper(raw@)) == Some(s),
            Err(e) => side_of(upper(raw@)).is_none() && e@ == ErrorView::Parse(
                "binance user ws order side invalid: "@ + raw@,
            ),
        },
{
    let u = to_upper(raw);
    if str_eq(u.as_str(), "BUY") {
        Ok(OrderSide::Buy)
    } else if str_eq(u.as_str(), "SELL") {
        Ok(OrderSide::Sell)
    } else {
        let mut m = String::new();
        push_str(&mut m, "binance user ws order side invalid: ");
        push_str(&mut m, raw);
        Err(parse_error_of(m))
    }
}

pub fn order_type(raw_type: &str, time_in_force: &str) -> (r: Result<OrderType, ExchangeError>)
    ensures
        match r {
            Ok(t) => order_type_of(upper(raw_type@), upper(time_in_force@)) == Some(t),
            Err(e) => order_type_of(upper(raw_type@), upper(time_in_force@)).is_none() && e@
                == ErrorView::Parse(
                "binance user ws order type invalid: type="@ + raw_type@ + " tif="@
                    + time_in_force@,
            ),
        },
{
    let t = to_upper(raw_type);
    let f = to_upper(time_in_force);
    if str_eq(t.as_str(), "MARKET") {
        return Ok(OrderType::Market);
    }
    if str_eq(t.as_str(), "LIMIT") {
        if str_eq(f.as_str(), "GTX") {
            return Ok(OrderType::PostOnly);
        }
        if str_eq(f.as_str(), "GTC") || str_eq(f.as_str(), "IOC") || str_eq(f.as_str(), "FOK") {
            return Ok(OrderType::Limit);
        }
    }
    let mut m = String::new();
    push_str(&mut m, "binance user ws order type invalid: type=");
    push_str(&mut m, raw_type);
    push_str(&mut m, " tif=");
    push_str(&mut m, time_in_force);
    assert(m@ =~= "binance user ws order type invalid: type="@ + raw_type@ + " tif="@
        + time_in_force@);
    Err(parse_error_of(m))
}

/// The upper-cased order status, when Binance defines it.
pub fn canonical_order_status(raw: &str) -> (r: Result<String, ExchangeError>)
    ensures
        match r {
            Ok(c) => order_status_of(upper(raw@)) is Some && c@ == upper(raw@),
            Err(e) => order_status_of(upper(raw@)) is None && e@ == ErrorView::Parse(
                "binance user ws order status invalid: "@ + raw@,
            ),
        },
{
    let u = to_upper(raw);
    let s = u.as_str();
    if str_eq(s, "NEW") || str_eq(s, "PARTIALLY_FILLED") || str_eq(s, "FILLED") || str_eq(
        s,
        "CANCELED",
    ) || str_eq(s, "EXPIRED") || str_eq(s, "EXPIRED_IN_MATCH") {
        Ok(u)
    } else {
        let mut m = String::new();
        push_str(&mut m, "binance user ws order status invalid: ");
        push_str(&mut m, raw);
        Err(parse_error_of(m))
    }
}

/// The order status that a canonical status names.
pub fn order_status_from_canonical(raw: &str) -> (r: OrderStatus)
    requires
        order_status_of(raw@) is Some,
    ensures
        order_status_of(raw@) == Some(r),
{
    if str_eq(raw, "NEW") {
        OrderStatus::Open
    } else if str_eq(raw, "PARTIALLY_FILLED") {
        OrderStatus::PartiallyFilled
    } else if str_eq(raw, "FILLED") {
        OrderStatus::Filled
    } else if str_eq(raw, "CANCELED") {
        OrderStatus::Canceled
    } else {
        OrderStatus::Expired
    }
}

/// The upper-cased execution type, when Binance defines it.
pub fn canonical_execution_type(raw: &str) -> (r: Result<String, ExchangeError>)
    ensures
        match r {
            Ok(c) => is_execution_type(upper(raw@)) && c@ == upper(raw@),
            Err(e) => !is_execution_type(upper(raw@)) && e@ == ErrorView::Parse(
                "binance user ws execution type invalid: "@ + raw@,
            ),
        },
{
    let u = to_upper(raw);
    let s = u.as_str();
    if str_eq(s, "NEW") || str_eq(s, "CANCELED") || str_eq(s, "CALCULATED") || str_eq(
        s,
        "EXPIRED",
    ) || str_eq(s, "TRADE") || str_eq(s, "AMENDMENT") {
        Ok(u)
    } else {
        let mut m = String::new();
        push_str(&mut m, "binance user ws execution type invalid: ");
        push_str(&mut m, raw);
        Err(parse_error_of(m))
    }
}

/// The position side as sent, when it is `BOTH`, `LONG` or `SHORT` in any case.
pub fn position_side(raw: &str) -> (r: Result<String, ExchangeError>)
    ensures
        match r {
            Ok(c) => is_position_side(upper(raw@)) && c@ == raw@,
            Err(e) => !is_position_side(upper(raw@)) && e@ == ErrorView::Parse(
                "binance user ws position side invalid: "@ + raw@,
            ),
        },
{
    let u = to_upper(raw);
    let s = u.as_str();
    if str_eq(s, "BOTH") || str_eq(s, "LONG") || str_eq(s, "SHORT") {
        Ok(raw.to_owned())
    } else {
        let mut m = String::new();
        push_str(&mut m, "binance user ws position side invalid: ");
        push_str(&mut m, raw);
        Err(parse_error_of(m))
    }
}

/// The trade id of a `TRADE` execution, which must be coherent as `reading`
/// judges its numbers.
pub fn parse_trade_identity(execution_type: &str, o: &RawOrderUpdate, reading: &FillReading) -> (r:
    Result<Option<i64>, ExchangeError>)
    ensures
        match r {
            Ok(t) => trade_error(o@, execution_type@, reading@).is_none() && t == (if execution_type@
                == "TRADE"@ {
                Some(o.trade_id)
            } else {
                None
            }),
            Err(e) => reports(e@, trade_error(o@, execution_type@, reading@)),
        },
{
    if !str_eq(execution_type, "TRADE") {
        return Ok(None);
    }
    let asset = clean_optional_text(&o.commission_asset);
    let incoherent = o.trade_id <= 0 || !reading.last_quantity_positive
        || !reading.last_price_positive || !reading.cumulative_covers_last
        || (reading.commission_above_epsilon && asset.is_none());
    if incoherent {
        let mut m = String::new();
        push_str(&mut m, "binance user ws incoherent TRADE fill: trade_id=");
        push_int(&mut m, o.trade_id);
        push_str(&mut m, " last_quantity=");
        push_str(&mut m, reading.last_quantity_shown.as_str());
        push_str(&mut m, " last_price=");
        push_str(&mut m, reading.last_price_shown.as_str());
        push_str(&mut m, " cumulative_quantity=");
        push_str(&mut m, reading.cumulative_quantity_shown.as_str());
        push_str(&mut m, " commission=");
        push_str(&mut m, reading.commission_shown.as_str());
        push_str(&mut m, " commission_asset=");
        match &asset {
            Some(a) => {
                push_str(&mut m, "Some(");
                let quoted = debug_quote(a.as_str());
                push_str(&mut m, quoted.as_str());
                push_str(&mut m, ")");
            },
            None => push_str(&mut m, "None"),
        }
        assert(m@ =~= "binance user ws incoherent TRADE fill: trade_id="@ + int_text(
            o.trade_id as int,
        ) + " last_quantity="@ + reading.last_quantity_shown@ + " last_price="@
            + reading.last_price_shown@ + " cumulative_quantity="@
            + reading.cumulative_quantity_shown@ + " commission="@ + reading.commission_shown@
            + " commission_asset="@ + asset_text(clean_optional(opt_view(o.commission_asset))));
        return Err(parse_error_of(m));
    }
    Ok(Some(o.trade_id))
}


// ---------------------------------------------------------------------------
// Events
// ---------------------------------------------------------------------------

fn balance_delta(row: &BinanceAccountBalanceDelta) -> (r: Result<
    BinanceAccountBalanceDelta,
    ExchangeError,
>)
    ensures
        match r {
            Ok(b) => balance_error(row@).is_none() && b@ == row@,
            Err(e) => reports(e@, balance_error(row@)),
        },
{
    proof {
        reveal(balance_error);
    }
    let asset = required_text(&row.asset, "a.B.a")?;
    parse_number(row.wallet_balance.as_str(), "a.B.wb")?;
    parse_number(row.cross_wallet_balance.as_str(), "a.B.cw")?;
    parse_number(row.balance_change.as_str(), "a.B.bc")?;
    Ok(
        BinanceAccountBalanceDelta {
            asset,
            wallet_balance: row.wallet_balance.clone(),
            cross_wallet_balance: row.cross_wallet_balance.clone(),
            balance_change: row.balance_change.clone(),
        },
    )
}

fn position_delta(row: &BinancePositionDelta) -> (r: Result<BinancePositionDelta, ExchangeError>)
    ensures
        match r {
            Ok(p) => position_error(row@).is_none() && p@ == position_of(row@),
            Err(e) => reports(e@, position_error(row@)),
        },
{
    proof {
        reveal(position_error);
    }
    let symbol = required_text(&row.symbol, "a.P.s")?;
    let side = position_side(row.side.as_str())?;
    parse_number(row.quantity.as_str(), "a.P.pa")?;
    parse_number(row.entry_price.as_str(), "a.P.ep")?;
    parse_number(row.accumulated_realized.as_str(), "a.P.cr")?;
    parse_number(row.unrealized_pnl.as_str(), "a.P.up")?;
    parse_number(row.isolated_wallet.as_str(), "a.P.iw")?;
    Ok(
        BinancePositionDelta {
            symbol: strip_common_suffixes(symbol.as_str()),
            side,
            quantity: row.quantity.clone(),
            entry_price: row.entry_price.clone(),
            accumulated_realized: row.accumulated_realized.clone(),
            unrealized_pnl: row.unrealized_pnl.clone(),
            margin_type: row.margin_type.clone(),
            isolated_wallet: row.isolated_wallet.clone(),
        },
    )
}

fn parse_balances(rows: &Vec<BinanceAccountBalanceDelta>) -> (r: Result<
    Vec<BinanceAccountBalanceDelta>,
    ExchangeError,
>)
    ensures
        match r {
            Ok(out) => balances_error(rows@.map_values(|b: BinanceAccountBalanceDelta| b@))
                .is_none() && out@.map_values(|b: BinanceAccountBalanceDelta| b@) == rows@.map_values(
                |b: BinanceAccountBalanceDelta| b@,
            ),
            Err(e) => reports(
                e@,
                balances_error(rows@.map_values(|b: BinanceAccountBalanceDelta| b@)),
            ),
        },
{
    let ghost views = rows@.map_values(|b: BinanceAccountBalanceDelta| b@);
    let mut out: Vec<BinanceAccountBalanceDelta> = Vec::new();
    let n = rows.len();
    let mut i: usize = 0;
    while i < n
        invariant
            n == rows@.len(),
            views == rows@.map_values(|b: BinanceAccountBalanceDelta| b@),
            i <= n,
            balances_error(views.subrange(0, i as int)).is_none(),
            out@.map_values(|b: BinanceAccountBalanceDelta| b@) == views.subrange(0, i as int),
        decreases n - i,
    {
        let ghost next = views.subrange(0, i + 1);
        assert(next.drop_last() =~= views.subrange(0, i as int));
        assert(next.last() == rows@[i as int]@);
        match balance_delta(&rows[i]) {
            Err(e) => {
                proof {
                    lemma_balances_error_prefix(views, i + 1);
                }
                return Err(e);
            },
            Ok(b) => {
                out.push(b);
                assert(out@.map_values(|b: BinanceAccountBalanceDelta| b@) =~= next);
            },
        }
        i = i + 1;
    }
    assert(views.subrange(0, n as int) =~= views);
    Ok(out)
}

/// A failure among the first rows is the failure of all rows.
proof fn lemma_balances_error_prefix(rows: Seq<BalanceView>, k: int)
    requires
        0 <= k <= rows.len(),
        balances_error(rows.subrange(0, k)) is Some,
    ensures
        balances_error(rows) == balances_error(rows.subrange(0, k)),
    decreases rows.len() - k,
{
    if k < rows.len() {
        let next = rows.subrange(0, k + 1);
        assert(next.drop_last() =~= rows.subrange(0, k));
        lemma_balances_error_prefix(rows, k + 1);
    } else {
        assert(rows.subrange(0, k) =~= rows);
    }
}

proof fn lemma_positions_error_prefix(rows: Seq<PositionView>, k: int)
    requires
        0 <= k <= rows.len(),
        positions_error(rows.subrange(0, k)) is Some,
    ensures
        positions_error(rows) == positions_error(rows.subrange(0, k)),
    decreases rows.len() - k,
{
    if k < rows.len() {
        let next = rows.subrange(0, k + 1);
        assert(next.drop_last() =~= rows.subrange(0, k));
        lemma_positions_error_prefix(rows, k + 1);
    } else {
        assert(rows.subrange(0, k) =~= rows);
    }
}

#[verifier::rlimit(100)]
fn parse_positions(rows: &Vec<BinancePositionDelta>) -> (r: Result<
    Vec<BinancePositionDelta>,
    ExchangeError,
>)
    ensures
        match r {
            Ok(out) => positions_error(rows@.map_values(|p: BinancePositionDelta| p@)).is_none()
                && out@.map_values(|p: BinancePositionDelta| p@) == rows@.map_values(
                |p: BinancePositionDelta| p@,
            ).map_values(|p: PositionView| position_of(p)),
            Err(e) => reports(e@, positions_error(rows@.map_values(|p: BinancePositionDelta| p@))),
        },
{
    let ghost views = rows@.map_values(|p: BinancePositionDelta| p@);
    let mut out: Vec<BinancePositionDelta> = Vec::new();
    let n = rows.len();
    let mut i: usize = 0;
    while i < n
        invariant
            n == rows@.len(),
            views == rows@.map_values(|p: BinancePositionDelta| p@),
            i <= n,
            positions_error(views.subrange(0, i as int)).is_none(),
            out@.map_values(|p: BinancePositionDelta| p@) == views.subrange(0, i as int).map_values(
                |p: PositionView| position_of(p),
            ),
        decreases n - i,
    {
        let ghost next = views.subrange(0, i + 1);
        assert(next.drop_last() =~= views.subrange(0, i as int));
        assert(next.last() == rows@[i as int]@);
        match position_delta(&rows[i]) {
            Err(e) => {
                proof {
                    lemma_positions_error_prefix(views, i + 1);
                }
                return Err(e);
            },
            Ok(p) => {
                let ghost old_out = out@;
                let ghost pv = p@;
                out.push(p);
                proof {
                    let prev = views.subrange(0, i as int);
                    assert(old_out.map_values(|p: BinancePositionDelta| p@).len() == i);
                    assert(old_out.len() == i);
                    assert(out@ == old_out.push(out@[i as int]));
                    assert forall|k: int| 0 <= k < i + 1 implies (#[trigger] out@[k])@
                        == position_of(next[k]) by {
                        if k < i {
                            assert(out@[k] == old_out[k]);
                            assert(old_out.map_values(|p: BinancePositionDelta| p@)[k]
                                == prev.map_values(|p: PositionView| position_of(p))[k]);
                            assert(next[k] == prev[k]);
                        } else {
                            assert(out@[k]@ == pv);
                        }
                    }
                    assert(out@.map_values(|p: BinancePositionDelta| p@) =~= next.map_values(
                        |p: PositionView| position_of(p),
                    ));
                }
            },
        }
        i = i + 1;
    }
    assert(views.subrange(0, n as int) =~= views);
    Ok(out)
}

fn parse_account_update(env: &RawUserEnvelope) -> (r: Result<BinanceAccountUpdate, ExchangeError>)
    ensures
        match r {
            Ok(u) => env@.account matches Some(a) && account_error(env@, a).is_none() && u@
                == account_update_of(env@, a),
            Err(e) => match env@.account {
                None => e@ == ErrorView::Parse("binance account update missing a"@),
                Some(a) => reports(e@, account_error(env@, a)),
            },
        },
{
    let data = match &env.account {
        Some(a) => a,
        None => {
            return Err(parse_error_of("binance account update missing a".to_owned()));
        },
    };
    let event_time_ms = parse_timestamp_ms(env.event_time_ms, "E")?;
    let transaction_time_ms = parse_required_timestamp_ms(env.transaction_time_ms, "T")?;
    let reason = required_text(&data.reason, "a.m")?;
    let balances = parse_balances(&data.balances)?;
    let positions = parse_positions(&data.positions)?;
    let u = BinanceAccountUpdate {
        event_time_ms,
        transaction_time_ms,
        reason,
        balances,
        positions,
    };
    assert(u@.balances =~= data@.balances);
    Ok(u)
}

#[verifier::rlimit(60)]
fn parse_order_update(env: &RawUserEnvelope, reading: &FillReading) -> (r: Result<
    BinanceOrderTradeUpdate,
    ExchangeError,
>)
    ensures
        match r {
            Ok(u) => env@.order matches Some(o) && order_error(env@, o, reading@).is_none() && u@
                == order_update_of(env@, o),
            Err(e) => match env@.order {
                None => e@ == ErrorView::Parse("binance order update missing o"@),
                Some(o) => reports(e@, order_error(env@, o, reading@)),
            },
        },
{
    let update = match &env.order {
        Some(o) => o,
        None => {
            return Err(parse_error_of("binance order update missing o".to_owned()));
        },
    };
    let event_time_ms = parse_timestamp_ms(env.event_time_ms, "E")?;
    let order_status = canonical_order_status(update.order_status.as_str())?;
    let status = order_status_from_canonical(order_status.as_str());
    let execution_type = canonical_execution_type(update.execution_type.as_str())?;
    let transaction_time_ms = parse_order_transaction_time(
        env.transaction_time_ms,
        update.trade_time_ms,
    )?;
    parse_number(update.last_filled_quantity.as_str(), "o.l")?;
    parse_number(update.accumulated_filled_quantity.as_str(), "o.z")?;
    parse_number(update.last_filled_price.as_str(), "o.L")?;
    parse_number(update.commission.as_str(), "o.n")?;
    let commission_asset = clean_optional_text(&update.commission_asset);
    let trade_id = parse_trade_identity(execution_type.as_str(), update, reading)?;
    let order_id = parse_order_id(update.order_id)?;
    let symbol = required_text(&update.symbol, "o.s")?;
    let side = order_side(update.side.as_str())?;
    let order_type = order_type(update.order_type.as_str(), update.time_in_force.as_str())?;
    parse_number(update.original_quantity.as_str(), "o.q")?;
    parse_number(update.original_price.as_str(), "o.p")?;
    parse_number(update.average_price.as_str(), "o.ap")?;
    if !chrono_millis_representable(transaction_time_ms) {
        let mut m = String::new();
        push_str(&mut m, "binance user ws invalid timestamp: ");
        push_int(&mut m, transaction_time_ms);
        return Err(parse_error_of(m));
    }
    let trade_time_ms = parse_timestamp_ms(update.trade_time_ms, "o.T")?;
    let client_order_id = required_text(&update.client_order_id, "o.c")?;
    let order = OrderInfo {
        venue_time_in_force: Some(update.time_in_force.clone()),
        client_order_id: client_order_id_from_str(update.client_order_id.as_str()),
        reduce_only: update.reduce_only,
        order_id: crate::text::int_to_string(order_id),
        symbol: strip_common_suffixes(symbol.as_str()),
        exchange: "binance".to_owned(),
        side,
        order_type,
        status,
        quantity: update.original_quantity.clone(),
        price: update.original_price.clone(),
        filled_quantity: update.accumulated_filled_quantity.clone(),
        filled_price: update.average_price.clone(),
        fees: vec![update.commission.clone()],
        execution_style: None,
        created_at_ms: transaction_time_ms,
    };
    assert(order.fees@.map_values(|f: String| f@) =~= seq![update.commission@]);
    Ok(
        BinanceOrderTradeUpdate {
            event_time_ms,
            transaction_time_ms,
            trade_time_ms,
            client_order_id,
            execution_type,
            order_status,
            reject_reason: clean_optional_text(&update.reject_reason),
            trade_id,
            last_filled_quantity: update.last_filled_quantity.clone(),
            last_filled_price: update.last_filled_price.clone(),
            commission_asset,
            live_state: live_state(status),
            order,
        },
    )
}

/// What a decoded envelope means.
pub fn parse_envelope(env: &RawUserEnvelope, reading: &FillReading) -> (r: Result<
    Option<BinanceUserEvent>,
    ExchangeError,
>)
    ensures
        match envelope_outcome(env@, reading@) {
            Ok(Some(v)) => r matches Ok(Some(ev)) && ev@ == v,
            Ok(None) => r matches Ok(None),
            Err(m) => r matches Err(e) && e@ == ErrorView::Parse(m),
        },
{
    if str_eq(env.event_type.as_str(), "ACCOUNT_UPDATE") {
        match parse_account_update(env) {
            Ok(u) => Ok(Some(BinanceUserEvent::Account(u))),
            Err(e) => Err(e),
        }
    } else if str_eq(env.event_type.as_str(), "ORDER_TRADE_UPDATE") {
        match parse_order_update(env, reading) {
            Ok(u) => Ok(Some(BinanceUserEvent::Order(Box::new(u)))),
            Err(e) => Err(e),
        }
    } else {
        Ok(None)
    }
}

/// Reads one user stream event: an account update, an order update, or
/// nothing for other event types. Any malformed or incoherent field fails
/// the whole event with a parse error naming the field. The fill of an
/// order update is judged by `reading`, the double reading of the texts that
/// `fill_texts` gives for the same text.
pub fn parse_user_event(text: &str, reading: &FillReading) -> (r: Result<
    Option<BinanceUserEvent>,
    ExchangeError,
>)
    ensures
        match user_event_outcome(text@, reading@) {
            Ok(Some(v)) => r matches Ok(Some(ev)) && ev@ == v,
            Ok(None) => r matches Ok(None),
            Err(m) => r matches Err(e) && e@ == ErrorView::Parse(m),
        },
{
    let mut m = String::new();
    push_str(&mut m, "binance user ws event: invalid payload; body=");
    push_str(&mut m, text);
    let doc = match parse_json(text) {
        Some(d) => d,
        None => return Err(parse_error_of(m)),
    };
    let env = match decode_user_envelope(&doc) {
        Some(env) => env,
        None => return Err(parse_error_of(m)),
    };
    parse_envelope(&env, reading)
}

/// The fill texts of the order update a text carries: last quantity, last
/// price, cumulative quantity and commission.
pub open spec fn fill_texts_of(text: Seq<char>) -> Option<(Seq<char>, Seq<char>, Seq<char>, Seq<char>)> {
    match json_document(text) {
        Some(doc) => match decode_envelope(doc) {
            Some(env) => match env.order {
                Some(o) => Some(
                    (
                        o.last_filled_quantity,
                        o.last_filled_price,
                        o.accumulated_filled_quantity,
                        o.commission,
                    ),
                ),
                None => None,
            },
            None => None,
        },
        None => None,
    }
}

/// The texts whose double reading judges the fill of the order update in
/// `text`; `None` when the text carries no order update.
pub fn fill_texts(text: &str) -> (r: Option<FillTexts>)
    ensures
        match r {
            Some(t) => fill_texts_of(text@) == Some(
                (t.last_quantity@, t.last_price@, t.cumulative_quantity@, t.commission@),
            ),
            None => fill_texts_of(text@) is None,
        },
{
    let doc = match parse_json(text) {
        Some(d) => d,
        None => return None,
    };
    let env = match decode_user_envelope(&doc) {
        Some(env) => env,
        None => return None,
    };
    match &env.order {
        Some(o) => Some(
            FillTexts {
                last_quantity: o.last_filled_quantity.clone(),
                last_price: o.last_filled_price.clone(),
                cumulative_quantity: o.accumulated_filled_quantity.clone(),
                commission: o.commission.clone(),
            },
        ),
        None => None,
    }
}


// ---------------------------------------------------------------------------
// User stream URL
// ---------------------------------------------------------------------------

/// `s.trim_end_matches('/')`.
pub open spec fn without_trailing_slashes(s: Seq<char>) -> Seq<char>
    decreases s.len(),
{
    if s.len() > 0 && s.last() == '/' {
        without_trailing_slashes(s.drop_last())
    } else {
        s
    }
}

/// The text of the URL that `url::Url::parse(base)` gives once the two
/// query pairs are appended (form-encoded) to it, or the parser's error text.
pub uninterp spec fn url_with_query_text(
    base: Seq<char>,
    key1: Seq<char>,
    value1: Seq<char>,
    key2: Seq<char>,
    value2: Seq<char>,
) -> Result<Seq<char>, Seq<char>>;

/// Calls `url::Url::parse`, then `query_pairs_mut().append_pair` for both
/// pairs, and renders the URL; on a parse failure it renders the error. The
/// contract claims that the outcome is a function of the arguments, and that
/// the user stream's own base, a well-formed absolute `wss` URL, parses.
#[verifier::external_body]
fn url_with_query(base: &str, key1: &str, value1: &str, key2: &str, value2: &str) -> (r: Result<
    String,
    String,
>)
    ensures
        match r {
            Ok(u) => url_with_query_text(base@, key1@, value1@, key2@, value2@) == Ok::<
                Seq<char>,
                Seq<char>,
            >(u@),
            Err(e) => url_with_query_text(base@, key1@, value1@, key2@, value2@) == Err::<
                Seq<char>,
                Seq<char>,
            >(e@),
        },
        base@ == "wss://fstream.binance.com/private/ws"@ ==> r is Ok,
{
    match url::Url::parse(base) {
        Ok(mut url) => {
            url.query_pairs_mut().append_pair(key1, value1).append_pair(key2, value2);
            Ok(url.into())
        },
        Err(error) => Err(error.to_string()),
    }
}

fn trim_trailing_slashes(s: &str) -> (r: String)
    ensures
        r@ == without_trailing_slashes(s@),
{
    let mut j = s.unicode_len();
    assert(s@.subrange(0, j as int) =~= s@);
    while j > 0 && s.get_char(j - 1) == '/'
        invariant
            j <= s@.len(),
            without_trailing_slashes(s@) == without_trailing_slashes(s@.subrange(0, j as int)),
        decreases j,
    {
        proof {
            let t = s@.subrange(0, j as int);
            assert(t.drop_last() =~= s@.subrange(0, j - 1));
        }
        j = j - 1;
    }
    proof {
        let t = s@.subrange(0, j as int);
        if j > 0 {
            assert(t.last() == s@[j - 1]);
        }
        assert(s@.subrange(0, s@.len() as int) =~= s@);
    }
    s.substring_char(0, j).to_owned()
}

/// The user stream URL for a listen key on a WebSocket base: `{base}/ws`
/// with the `listenKey` and `events` query pairs.
pub open spec fn user_stream_url_outcome(base: Seq<char>, listen_key: Seq<char>) -> Result<
    Seq<char>,
    Seq<char>,
> {
    let key = trim(listen_key);
    if key.len() == 0 {
        Err("binance user stream empty listenKey"@)
    } else {
        match url_with_query_text(
            without_trailing_slashes(base) + "/ws"@,
            "listenKey"@,
            key,
            "events"@,
            "ORDER_TRADE_UPDATE/ACCOUNT_UPDATE"@,
        ) {
            Ok(u) => Ok(u),
            Err(e) => Err("binance user stream invalid websocket base: "@ + e),
        }
    }
}

/// Each Binance order status word names exactly one order status: `NEW` is
/// open, `PARTIALLY_FILLED` partly filled, `FILLED` filled, `CANCELED`
/// canceled, `EXPIRED` and `EXPIRED_IN_MATCH` expired; no word names a
/// pending or rejected order, and every other text names none.
pub proof fn binance_status_words_name_their_status(u: Seq<char>)
    ensures
        order_status_of(u) == Some(OrderStatus::Open) <==> u == "NEW"@,
        order_status_of(u) == Some(OrderStatus::PartiallyFilled) <==> u == "PARTIALLY_FILLED"@,
        order_status_of(u) == Some(OrderStatus::Filled) <==> u == "FILLED"@,
        order_status_of(u) == Some(OrderStatus::Canceled) <==> u == "CANCELED"@,
        order_status_of(u) == Some(OrderStatus::Expired) <==> (u == "EXPIRED"@ || u
            == "EXPIRED_IN_MATCH"@),
        order_status_of(u) != Some(OrderStatus::Pending),
        order_status_of(u) != Some(OrderStatus::Rejected),
        order_status_of(u) is Some <==> (u == "NEW"@ || u == "PARTIALLY_FILLED"@ || u == "FILLED"@
            || u == "CANCELED"@ || u == "EXPIRED"@ || u == "EXPIRED_IN_MATCH"@),
{
    reveal_strlit("NEW");
    reveal_strlit("PARTIALLY_FILLED");
    reveal_strlit("FILLED");
    reveal_strlit("CANCELED");
    reveal_strlit("EXPIRED");
    reveal_strlit("EXPIRED_IN_MATCH");
    assert("NEW"@.len() == 3);
    assert("FILLED"@.len() == 6);
    assert("EXPIRED"@.len() == 7);
    assert("CANCELED"@.len() == 8);
    assert("PARTIALLY_FILLED"@.len() == 16);
    assert("EXPIRED_IN_MATCH"@.len() == 16);
    assert("PARTIALLY_FILLED"@[0] != "EXPIRED_IN_MATCH"@[0]);
}

/// Each Binance side word names its side: `BUY` buys and `SELL` sells;
/// every other text names none.
pub proof fn binance_side_words_name_their_side(u: Seq<char>)
    ensures
        side_of(u) == Some(OrderSide::Buy) <==> u == "BUY"@,
        side_of(u) == Some(OrderSide::Sell) <==> u == "SELL"@,
        side_of(u) is Some <==> (u == "BUY"@ || u == "SELL"@),
{
    reveal_strlit("BUY");
    reveal_strlit("SELL");
    assert("BUY"@.len() != "SELL"@.len());
}

/// The order type a Binance order type and time in force name: `MARKET` is
/// a market order whatever its time in force; a `LIMIT` order is post-only
/// exactly when its time in force is `GTX`, and a plain limit order when it
/// is `GTC`, `IOC` or `FOK`; every other pair names none.
pub proof fn binance_type_words_name_their_type(t: Seq<char>, f: Seq<char>)
    ensures
        order_type_of(t, f) == Some(OrderType::Market) <==> t == "MARKET"@,
        order_type_of(t, f) == Some(OrderType::PostOnly) <==> (t == "LIMIT"@ && f == "GTX"@),
        order_type_of(t, f) == Some(OrderType::Limit) <==> (t == "LIMIT"@ && (f == "GTC"@ || f
            == "IOC"@ || f == "FOK"@)),
        order_type_of(t, f) is Some <==> (t == "MARKET"@ || (t == "LIMIT"@ && (f == "GTX"@ || f
            == "GTC"@ || f == "IOC"@ || f == "FOK"@))),
{
    reveal_strlit("MARKET");
    reveal_strlit("LIMIT");
    reveal_strlit("GTX");
    reveal_strlit("GTC");
    reveal_strlit("IOC");
    reveal_strlit("FOK");
    assert("MARKET"@.len() != "LIMIT"@.len());
    assert("GTX"@[2] != "GTC"@[2]);
    assert("GTX"@[0] != "IOC"@[0]);
    assert("GTX"@[0] != "FOK"@[0]);
}

/// An order update reports the status its status word names, in any case:
/// the order is filled, and its live state filled, exactly when the word is
/// `FILLED`; partly filled exactly for `PARTIALLY_FILLED`; open (accepted)
/// exactly for `NEW`; canceled exactly for `CANCELED`; and the update is
/// terminal exactly for `FILLED`, `CANCELED`, `EXPIRED` and
/// `EXPIRED_IN_MATCH`.
pub proof fn order_updates_report_the_status_they_name(text: Seq<char>, rd: FillReadingView)
    ensures
        user_event_outcome(text, rd) matches Ok(Some(UserEventView::Order(u))) ==> {
            let w = u.order_status;
            &&& (u.order.status == OrderStatus::Filled <==> w == "FILLED"@)
            &&& (u.live_state == LiveOrderState::Filled <==> w == "FILLED"@)
            &&& (u.order.status == OrderStatus::PartiallyFilled <==> w == "PARTIALLY_FILLED"@)
            &&& (u.live_state == LiveOrderState::PartiallyFilled <==> w == "PARTIALLY_FILLED"@)
            &&& (u.order.status == OrderStatus::Open <==> w == "NEW"@)
            &&& (u.live_state == LiveOrderState::Accepted <==> w == "NEW"@)
            &&& (u.order.status == OrderStatus::Canceled <==> w == "CANCELED"@)
            &&& (is_terminal_state(u.live_state) <==> (w == "FILLED"@ || w == "CANCELED"@ || w
                == "EXPIRED"@ || w == "EXPIRED_IN_MATCH"@))
        },
{
    match json_document(text) {
        Some(doc) => match decode_envelope(doc) {
            Some(env) => {
                if env.event_type != "ACCOUNT_UPDATE"@ && env.event_type == "ORDER_TRADE_UPDATE"@ {
                    match env.order {
                        Some(o) => {
                            binance_status_words_name_their_status(upper(o.order_status));
                        },
                        None => {},
                    }
                }
            },
            None => {},
        },
        None => {},
    }
}

/// The user stream URL reads the listen key only through its trimmed text:
/// white space around the key never reaches the `listenKey` value, and the
/// empty-key error comes exactly when the trimmed key is empty.
pub proof fn listen_key_is_read_trimmed(base: Seq<char>, listen_key: Seq<char>)
    ensures
        user_stream_url_outcome(base, listen_key) == user_stream_url_outcome(base, trim(listen_key)),
        (user_stream_url_outcome(base, listen_key) == Err::<Seq<char>, Seq<char>>(
            "binance user stream empty listenKey"@,
        )) <==> trim(listen_key).len() == 0,
{
    crate::text::lemma_trim_idempotent(listen_key);
    reveal_strlit("binance user stream empty listenKey");
    reveal_strlit("binance user stream invalid websocket base: ");
    let key = trim(listen_key);
    if key.len() != 0 {
        match url_with_query_text(
            without_trailing_slashes(base) + "/ws"@,
            "listenKey"@,
            key,
            "events"@,
            "ORDER_TRADE_UPDATE/ACCOUNT_UPDATE"@,
        ) {
            Ok(u) => {},
            Err(e) => {
                let m = "binance user stream invalid websocket base: "@ + e;
                assert(m[20] == 'i');
                assert("binance user stream empty listenKey"@[20] == 'e');
            },
        }
    }
}

pub fn user_stream_ws_url_with_base(base: &str, listen_key: &str) -> (r: Result<
    String,
    ExchangeError,
>)
    ensures
        match user_stream_url_outcome(base@, listen_key@) {
            Ok(u) => r matches Ok(s) && s@ == u,
            Err(m) => r matches Err(e) && e@ == ErrorView::Parse(m),
        },
        base@ == USER_STREAM_WS_BASE@ ==> (r is Err <==> trim(listen_key@).len() == 0),
{
    proof {
        reveal_strlit("wss://fstream.binance.com/private");
        reveal_strlit("wss://fstream.binance.com/private/ws");
        reveal_strlit("/ws");
        if base@ == USER_STREAM_WS_BASE@ {
            assert(without_trailing_slashes(base@) == base@);
            assert(without_trailing_slashes(base@) + "/ws"@ =~= "wss://fstream.binance.com/private/ws"@);
        }
    }
    let key = trimmed(listen_key);
    if key.unicode_len() == 0 {
        return Err(parse_error_of("binance user stream empty listenKey".to_owned()));
    }
    let mut url_text = trim_trailing_slashes(base);
    push_str(&mut url_text, "/ws");
    match url_with_query(
        url_text.as_str(),
        "listenKey",
        key.as_str(),
        "events",
        USER_STREAM_EVENTS,
    ) {
        Ok(u) => Ok(u),
        Err(error) => {
            let mut m = String::new();
            push_str(&mut m, "binance user stream invalid websocket base: ");
            push_str(&mut m, error.as_str());
            Err(parse_error_of(m))
        },
    }
}

/// The user stream URL for a listen key on the production private base.
pub fn user_stream_ws_url(listen_key: &str) -> (r: Result<String, ExchangeError>)
    ensures
        match user_stream_url_outcome("wss://fstream.binance.com/private"@, listen_key@) {
            Ok(u) => r matches Ok(s) && s@ == u,
            Err(m) => r matches Err(e) && e@ == ErrorView::Parse(m),
        },
        r is Err <==> trim(listen_key@).len() == 0,
{
    user_stream_ws_url_with_base(USER_STREAM_WS_BASE, listen_key)
}

} // verus!
