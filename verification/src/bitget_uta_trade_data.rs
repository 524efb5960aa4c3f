//! Bitget UTA order write payloads: the venue's names for sides and times in
//! force, the shape of an order (type, price, time in force), the cancel
//! request body, and the live state an order status maps to.
//!
//! Official references:
//! - Place order: <https://www.bitget.com/api-doc/uta/trade/Place-Order>
//! - Cancel order: <https://www.bitget.com/api-doc/uta/trade/Cancel-Order>

use vstd::prelude::*;
use crate::bitget_order_compiler::{validation_error, validation_error_view};
use crate::bitget_uta_config::{category_query, BitgetUtaCategory};
use crate::error::{ErrorView, ExchangeError};
use crate::json_out::{push_text_member, quoted};
use crate::orders::{LiveOrderState, OrderSide, OrderStatus, OrderType};
use crate::text::{push_char, push_str};

verus! {

/// How long an order rests on the book.
#[derive(Clone, Copy, Debug, PartialEq, Eq, Structural)]
pub enum TimeInForce {
    Gtc,
    Ioc,
    Fok,
    Gtx,
}

pub open spec fn time_in_force_name(t: TimeInForce) -> Seq<char> {
    match t {
        TimeInForce::Gtc => "gtc"@,
        TimeInForce::Ioc => "ioc"@,
        TimeInForce::Fok => "fok"@,
        TimeInForce::Gtx => "post_only"@,
    }
}

/// The venue's name for a time in force; a post-only time is `post_only`.
pub fn bitget_time_in_force(time_in_force: TimeInForce) -> (r: &'static str)
    ensures
        r@ == time_in_force_name(time_in_force),
{
    match time_in_force {
        TimeInForce::Gtc => "gtc",
        TimeInForce::Ioc => "ioc",
        TimeInForce::Fok => "fok",
        TimeInForce::Gtx => "post_only",
    }
}

pub open spec fn side_name(side: OrderSide) -> Seq<char> {
    match side {
        OrderSide::Buy => "buy"@,
        OrderSide::Sell => "sell"@,
    }
}

/// The venue's name for an order side.
pub fn bitget_side(side: OrderSide) -> (r: &'static str)
    ensures
        r@ == side_name(side),
{
    match side {
        OrderSide::Buy => "buy",
        OrderSide::Sell => "sell",
    }
}

pub open spec fn live_state_of_status(status: OrderStatus) -> LiveOrderState {
    match status {
        OrderStatus::Pending | OrderStatus::Open => LiveOrderState::Accepted,
        OrderStatus::PartiallyFilled => LiveOrderState::PartiallyFilled,
        OrderStatus::Filled => LiveOrderState::Filled,
        OrderStatus::Canceled => LiveOrderState::Cancelled,
        OrderStatus::Rejected => LiveOrderState::Rejected,
        OrderStatus::Expired => LiveOrderState::Failed,
    }
}

/// A looked-up order's live state is the state its status implies
/// everywhere else.
pub proof fn looked_up_states_agree_with_statuses(status: OrderStatus)
    ensures
        live_state_of_status(status) == crate::orders::live_state_of(status),
{
}

/// The side and time-in-force words an order is sent with read back as the
/// side and rule it was sent with: a post-only time in force as `post_only`.
pub proof fn sent_words_read_back(side: OrderSide, t: TimeInForce)
    ensures
        crate::bitget_uta_ws_user_data::order_side_of(side_name(side)) == Ok::<
            OrderSide,
            ErrorView,
        >(side),
        crate::bitget_uta_private_data::order_side_of(side_name(side)) == Some(side),
        crate::bitget_uta_private_data::time_in_force_of(time_in_force_name(t)) == Some(
            match t {
                TimeInForce::Gtc => crate::bitget_uta_private_data::BitgetTimeInForce::Gtc,
                TimeInForce::Ioc => crate::bitget_uta_private_data::BitgetTimeInForce::Ioc,
                TimeInForce::Fok => crate::bitget_uta_private_data::BitgetTimeInForce::Fok,
                TimeInForce::Gtx => crate::bitget_uta_private_data::BitgetTimeInForce::PostOnly,
            },
        ),
{
    reveal_strlit("buy");
    reveal_strlit("sell");
    reveal_strlit("gtc");
    reveal_strlit("ioc");
    reveal_strlit("fok");
    reveal_strlit("post_only");
    reveal_strlit("rpi");
    assert(crate::text::lower("buy"@) =~= "buy"@);
    assert(crate::text::lower("sell"@) =~= "sell"@);
    assert(crate::text::lower("gtc"@) =~= "gtc"@);
    assert(crate::text::lower("ioc"@) =~= "ioc"@);
    assert(crate::text::lower("fok"@) =~= "fok"@);
    assert(crate::text::lower("post_only"@) =~= "post_only"@);
    crate::bitget_uta_private_data::time_in_force_words_name_their_rule(time_in_force_name(t));
    crate::bitget_uta_private_data::rest_side_words_name_their_side(side_name(side));
    crate::bitget_uta_ws_user_data::bitget_side_words_name_their_side(side_name(side));
}

/// The live state an order status found by a lookup stands for.
pub fn live_state_from_order_status(status: OrderStatus) -> (r: LiveOrderState)
    ensures
        r == live_state_of_status(status),
{
    match status {
        OrderStatus::Pending | OrderStatus::Open => LiveOrderState::Accepted,
        OrderStatus::PartiallyFilled => LiveOrderState::PartiallyFilled,
        OrderStatus::Filled => LiveOrderState::Filled,
        OrderStatus::Canceled => LiveOrderState::Cancelled,
        OrderStatus::Rejected => LiveOrderState::Rejected,
        OrderStatus::Expired => LiveOrderState::Failed,
    }
}

/// The order type, price and time in force an order is sent with.
#[derive(Debug)]
pub struct BitgetUtaOrderShape {
    pub order_type: &'static str,
    pub price: Option<String>,
    pub time_in_force: Option<&'static str>,
}

pub open spec fn missing_price_message() -> Seq<char> {
    "bitget limit order requires price"@
}

/// The shape of an order: a market order has no price or time in force; a
/// limit order carries its price and time in force; a post-only order is a
/// limit order that is `post_only`. `price` is the written limit price, if
/// the order has one.
pub open spec fn order_shape_of(
    order_type: OrderType,
    time_in_force: TimeInForce,
    price: Option<Seq<char>>,
) -> Result<(Seq<char>, Option<Seq<char>>, Option<Seq<char>>), ErrorView> {
    match order_type {
        OrderType::Market => Ok(("market"@, None, None)),
        OrderType::Limit => match price {
            Some(p) => Ok(("limit"@, Some(p), Some(time_in_force_name(time_in_force)))),
            None => Err(validation_error_view(missing_price_message())),
        },
        OrderType::PostOnly => match price {
            Some(p) => Ok(("limit"@, Some(p), Some("post_only"@))),
            None => Err(validation_error_view(missing_price_message())),
        },
    }
}

pub open spec fn opt_str(o: Option<&'static str>) -> Option<Seq<char>> {
    match o {
        Some(s) => Some(s@),
        None => None,
    }
}

pub open spec fn opt_string(o: Option<String>) -> Option<Seq<char>> {
    match o {
        Some(s) => Some(s@),
        None => None,
    }
}

/// The shape an order is sent with.
pub fn bitget_order_shape(order_type: OrderType, time_in_force: TimeInForce, price: Option<String>) -> (r:
    Result<BitgetUtaOrderShape, ExchangeError>)
    ensures
        match order_shape_of(order_type, time_in_force, opt_string(price)) {
            Ok((t, p, f)) => r matches Ok(s) && s.order_type@ == t && opt_string(s.price) == p
                && opt_str(s.time_in_force) == f,
            Err(e) => r matches Err(x) && x@ == e,
        },
{
    match order_type {
        OrderType::Market => Ok(
            BitgetUtaOrderShape { order_type: "market", price: None, time_in_force: None },
        ),
        OrderType::Limit => match price {
            Some(p) => Ok(
                BitgetUtaOrderShape {
                    order_type: "limit",
                    price: Some(p),
                    time_in_force: Some(bitget_time_in_force(time_in_force)),
                },
            ),
            None => Err(validation_error("bitget limit order requires price".to_owned())),
        },
        OrderType::PostOnly => match price {
            Some(p) => Ok(
                BitgetUtaOrderShape {
                    order_type: "limit",
                    price: Some(p),
                    time_in_force: Some("post_only"),
                },
            ),
            None => Err(validation_error("bitget limit order requires price".to_owned())),
        },
    }
}

/// The cancel request body: category, symbol, the venue order id when
/// known, and the client id.
pub open spec fn cancel_body_of(
    category: BitgetUtaCategory,
    symbol: Seq<char>,
    order_id: Option<Seq<char>>,
    client_oid: Seq<char>,
) -> Seq<char> {
    seq!['{'] + quoted("category"@) + seq![':'] + quoted(category_query(category)) + seq![',']
        + quoted("symbol"@) + seq![':'] + quoted(symbol) + match order_id {
        Some(id) => seq![','] + quoted("orderId"@) + seq![':'] + quoted(id),
        None => Seq::empty(),
    } + seq![','] + quoted("clientOid"@) + seq![':'] + quoted(client_oid) + seq!['}']
}

/// The JSON body of a cancel request, for a client id already checked
/// against the venue's client id rules.
pub fn cancel_order_body(
    category: BitgetUtaCategory,
    symbol: &str,
    order_id: &Option<String>,
    client_oid: &str,
) -> (r: String)
    ensures
        r@ == cancel_body_of(category, symbol@, opt_string(*order_id), client_oid@),
{
    let mut head = String::new();
    push_char(&mut head, '{');
    push_text_member(&mut head, "category", category.as_query());
    push_char(&mut head, ',');
    push_text_member(&mut head, "symbol", symbol);
    let mut id_part = String::new();
    match order_id {
        Some(id) => {
            push_char(&mut id_part, ',');
            push_text_member(&mut id_part, "orderId", id.as_str());
        },
        None => {},
    }
    let mut tail = String::new();
    push_char(&mut tail, ',');
    push_text_member(&mut tail, "clientOid", client_oid);
    push_char(&mut tail, '}');
    push_str(&mut head, id_part.as_str());
    push_str(&mut head, tail.as_str());
    assert(head@ =~= cancel_body_of(category, symbol@, opt_string(*order_id), client_oid@));
    head
}

} // verus!
