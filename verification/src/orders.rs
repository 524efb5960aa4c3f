//! Order vocabulary shared by the venue parsers.
//!
//! Quantities and prices are kept as the decimal text the venue sent, after
//! the parsers have checked that the text reads as a finite number.

use vstd::prelude::*;

verus! {

#[derive(Clone, Copy, Debug, PartialEq, Eq, Structural)]
pub enum OrderSide {
    Buy,
    Sell,
}

#[derive(Clone, Copy, Debug, PartialEq, Eq, Structural)]
pub enum OrderType {
    Market,
    Limit,
    PostOnly,
}

#[derive(Clone, Copy, Debug, PartialEq, Eq, Structural)]
pub enum OrderStatus {
    Pending,
    Open,
    PartiallyFilled,
    Filled,
    Canceled,
    Rejected,
    Expired,
}

/// Where an order stands in its live lifecycle.
#[derive(Clone, Copy, Debug, PartialEq, Eq, Structural)]
pub enum LiveOrderState {
    Accepted,
    PartiallyFilled,
    Filled,
    Cancelled,
    Rejected,
    Failed,
    /// A state that the venue reported and the adapters do not know.
    Unknown,
}

/// The lifecycle state that an order status implies.
pub open spec fn live_state_of(status: OrderStatus) -> LiveOrderState {
    match status {
        OrderStatus::Pending | OrderStatus::Open => LiveOrderState::Accepted,
        OrderStatus::PartiallyFilled => LiveOrderState::PartiallyFilled,
        OrderStatus::Filled => LiveOrderState::Filled,
        OrderStatus::Canceled => LiveOrderState::Cancelled,
        OrderStatus::Rejected => LiveOrderState::Rejected,
        OrderStatus::Expired => LiveOrderState::Failed,
    }
}

/// A state from which the order will not change any more.
pub open spec fn is_terminal_state(s: LiveOrderState) -> bool {
    s is Filled || s is Cancelled || s is Rejected || s is Failed
}

/// The other side of the book.
pub open spec fn opposite_side(side: OrderSide) -> OrderSide {
    match side {
        OrderSide::Buy => OrderSide::Sell,
        OrderSide::Sell => OrderSide::Buy,
    }
}

/// An order's lifecycle is over exactly when its status is filled,
/// canceled, rejected or expired; pending, open and partly filled orders
/// can still change.
pub proof fn terminal_states_follow_final_statuses(status: OrderStatus)
    ensures
        is_terminal_state(live_state_of(status)) <==> (status is Filled || status is Canceled
            || status is Rejected || status is Expired),
{
}

/// The lifecycle state an order status implies names the same stage: a
/// pending or open order is accepted, a partly filled order partly filled, a
/// filled order filled, a canceled order cancelled, a rejected order
/// rejected and an expired order failed; no status leaves the state unknown.
pub proof fn live_states_follow_their_status(status: OrderStatus)
    ensures
        live_state_of(status) == LiveOrderState::Accepted <==> (status is Pending || status is Open),
        live_state_of(status) == LiveOrderState::PartiallyFilled <==> status is PartiallyFilled,
        live_state_of(status) == LiveOrderState::Filled <==> status is Filled,
        live_state_of(status) == LiveOrderState::Cancelled <==> status is Canceled,
        live_state_of(status) == LiveOrderState::Rejected <==> status is Rejected,
        live_state_of(status) == LiveOrderState::Failed <==> status is Expired,
        live_state_of(status) != LiveOrderState::Unknown,
{
}

pub fn live_state(status: OrderStatus) -> (r: LiveOrderState)
    ensures
        r == live_state_of(status),
{
    match status {
        OrderStatus::Pending | OrderStatus::Open => LiveOrderState::Accepted,
        OrderStatus::PartiallyFilled => LiveOrderState::PartiallyFilled,
        OrderStatus::Filled => LiveOrderState::Filled,
        OrderStatus::Canceled => LiveOrderState::Cancelled,
        OrderStatus::Rejected => LiveOrderState::Rejected,
        OrderStatus::Expired => LiveOrderState::Failed,
    }
}

pub fn is_terminal(s: LiveOrderState) -> (r: bool)
    ensures
        r == is_terminal_state(s),
{
    match s {
        LiveOrderState::Filled | LiveOrderState::Cancelled | LiveOrderState::Rejected
        | LiveOrderState::Failed => true,
        _ => false,
    }
}

/// One venue order as the adapters report it.
#[derive(Debug)]
pub struct OrderInfo {
    pub venue_time_in_force: Option<String>,
    pub client_order_id: Option<String>,
    pub reduce_only: Option<bool>,
    pub order_id: String,
    pub symbol: String,
    pub exchange: String,
    pub side: OrderSide,
    pub order_type: OrderType,
    pub status: OrderStatus,
    pub quantity: String,
    pub price: String,
    pub filled_quantity: String,
    pub filled_price: String,
    /// The fee amounts charged, one per fee row; the order's fee is their sum.
    pub fees: Vec<String>,
    /// How the venue executed or ended the order, when it says.
    pub execution_style: Option<String>,
    pub created_at_ms: i64,
}

pub ghost struct OrderInfoView {
    pub venue_time_in_force: Option<Seq<char>>,
    pub client_order_id: Option<Seq<char>>,
    pub reduce_only: Option<bool>,
    pub order_id: Seq<char>,
    pub symbol: Seq<char>,
    pub exchange: Seq<char>,
    pub side: OrderSide,
    pub order_type: OrderType,
    pub status: OrderStatus,
    pub quantity: Seq<char>,
    pub price: Seq<char>,
    pub filled_quantity: Seq<char>,
    pub filled_price: Seq<char>,
    pub fees: Seq<Seq<char>>,
    pub execution_style: Option<Seq<char>>,
    pub created_at_ms: i64,
}

pub open spec fn text_of(o: Option<String>) -> Option<Seq<char>> {
    match o {
        Some(s) => Some(s@),
        None => None,
    }
}

pub open spec fn order_info_view(o: OrderInfo) -> OrderInfoView {
    OrderInfoView {
        venue_time_in_force: text_of(o.venue_time_in_force),
        client_order_id: text_of(o.client_order_id),
        reduce_only: o.reduce_only,
        order_id: o.order_id@,
        symbol: o.symbol@,
        exchange: o.exchange@,
        side: o.side,
        order_type: o.order_type,
        status: o.status,
        quantity: o.quantity@,
        price: o.price@,
        filled_quantity: o.filled_quantity@,
        filled_price: o.filled_price@,
        fees: o.fees@.map_values(|f: String| f@),
        execution_style: text_of(o.execution_style),
        created_at_ms: o.created_at_ms,
    }
}

} // verus!
