//! Binance spot public ticker stream: the `<symbol>@ticker` 24h ticker and
//! the realtime `<symbol>@bookTicker` best bid and offer, read from raw,
//! combined-stream and all-market frames; the subscription requests and the
//! venue's replies to them.

use vstd::prelude::*;
use crate::json::{
    decode_i64_field, decode_optional_text_field, decode_optional_u64_field, decode_text_field,
    field, get, i64_or_default, is_struct_shaped, json_document, member, number_i64, number_u64,
    optional_text, optional_u64, parse_json, read_i64, read_u64, struct_shaped, text_or_default,
    JsonValue,
};
use crate::json_out::{push_number_member, push_quoted, push_text_array, push_text_member, quoted, text_array};
use crate::symbols::{compact_pair, compact_pair_symbol, views};
use crate::text::{int_text, lower, lower_char, nat_text, push_char, push_int, push_str, str_eq, to_lower};
use crate::ws_subscriptions::SubscriptionState;

verus! {

pub const WS_URL: &'static str = "wss://stream.binance.com:9443/stream";
pub const EVENT_24H_TICKER: &'static str = "24hrTicker";
/// How long a cached frame stays usable, in milliseconds.
pub const CACHE_MAX_AGE_MS: i64 = 30_000;

// ---------------------------------------------------------------------------
// Frames
// ---------------------------------------------------------------------------

/// A 24h rolling ticker (`e` = `24hrTicker`).
#[derive(Debug)]
pub struct SpotTicker24hUpdate {
    pub event_type: String,
    pub event_time: i64,
    pub symbol: String,
    pub last_price: String,
    pub quote_volume: String,
    pub bid_price: String,
    pub bid_qty: String,
    pub ask_price: String,
    pub ask_qty: String,
    pub close_time: i64,
}

pub ghost struct SpotTickerView {
    pub event_type: Seq<char>,
    pub event_time: i64,
    pub symbol: Seq<char>,
    pub last_price: Seq<char>,
    pub quote_volume: Seq<char>,
    pub bid_price: Seq<char>,
    pub bid_qty: Seq<char>,
    pub ask_price: Seq<char>,
    pub ask_qty: Seq<char>,
    pub close_time: i64,
}

impl View for SpotTicker24hUpdate {
    type V = SpotTickerView;

    open spec fn view(&self) -> SpotTickerView {
        SpotTickerView {
            event_type: self.event_type@,
            event_time: self.event_time,
            symbol: self.symbol@,
            last_price: self.last_price@,
            quote_volume: self.quote_volume@,
            bid_price: self.bid_price@,
            bid_qty: self.bid_qty@,
            ask_price: self.ask_price@,
            ask_qty: self.ask_qty@,
            close_time: self.close_time,
        }
    }
}

/// A realtime best bid and offer (a frame with an update id `u`).
#[derive(Debug)]
pub struct SpotBookTickerUpdate {
    pub symbol: String,
    pub bid_price: String,
    pub bid_qty: String,
    pub ask_price: String,
    pub ask_qty: String,
}

pub ghost struct SpotBookView {
    pub symbol: Seq<char>,
    pub bid_price: Seq<char>,
    pub bid_qty: Seq<char>,
    pub ask_price: Seq<char>,
    pub ask_qty: Seq<char>,
}

impl View for SpotBookTickerUpdate {
    type V = SpotBookView;

    open spec fn view(&self) -> SpotBookView {
        SpotBookView {
            symbol: self.symbol@,
            bid_price: self.bid_price@,
            bid_qty: self.bid_qty@,
            ask_price: self.ask_price@,
            ask_qty: self.ask_qty@,
        }
    }
}

#[derive(Debug)]
pub enum BinanceSpotTickerUpdate {
    Ticker(SpotTicker24hUpdate),
    Book(SpotBookTickerUpdate),
}

pub ghost enum SpotUpdateView {
    Ticker(SpotTickerView),
    Book(SpotBookView),
}

impl View for BinanceSpotTickerUpdate {
    type V = SpotUpdateView;

    open spec fn view(&self) -> SpotUpdateView {
        match self {
            BinanceSpotTickerUpdate::Ticker(t) => SpotUpdateView::Ticker(t@),
            BinanceSpotTickerUpdate::Book(b) => SpotUpdateView::Book(b@),
        }
    }
}

pub open spec fn updates_view(v: Seq<BinanceSpotTickerUpdate>) -> Seq<SpotUpdateView> {
    v.map_values(|u: BinanceSpotTickerUpdate| u@)
}

// ---------------------------------------------------------------------------
// Decoding, spec
// ---------------------------------------------------------------------------

/// A 24h ticker read from `v`; every field defaults when absent.
pub open spec fn decode_ticker(v: JsonValue) -> Option<SpotTickerView> {
    if !struct_shaped(v, 10) {
        None
    } else {
        let t = |i: nat, k: Seq<char>| text_or_default(field(v, i, k));
        match (
            (t(0, "e"@), i64_or_default(field(v, 1, "E"@)), t(2, "s"@), t(3, "c"@), t(4, "q"@)),
            (t(5, "b"@), t(6, "B"@), t(7, "a"@), t(8, "A"@), i64_or_default(field(v, 9, "C"@))),
        ) {
            (
                (Ok(e), Ok(et), Ok(s), Ok(c), Ok(q)),
                (Ok(b), Ok(bq), Ok(a), Ok(aq), Ok(ct)),
            ) => Some(
                SpotTickerView {
                    event_type: e,
                    event_time: et,
                    symbol: s,
                    last_price: c,
                    quote_volume: q,
                    bid_price: b,
                    bid_qty: bq,
                    ask_price: a,
                    ask_qty: aq,
                    close_time: ct,
                },
            ),
            _ => None,
        }
    }
}

/// A best bid and offer read from `v`; every field defaults when absent.
pub open spec fn decode_book(v: JsonValue) -> Option<SpotBookView> {
    if !struct_shaped(v, 5) {
        None
    } else {
        let t = |i: nat, k: Seq<char>| text_or_default(field(v, i, k));
        match (t(0, "s"@), t(1, "b"@), t(2, "B"@), t(3, "a"@), t(4, "A"@)) {
            (Ok(s), Ok(b), Ok(bq), Ok(a), Ok(aq)) => Some(
                SpotBookView { symbol: s, bid_price: b, bid_qty: bq, ask_price: a, ask_qty: aq },
            ),
            _ => None,
        }
    }
}

/// The event type `e` and update id `u` of a frame, both optional.
pub open spec fn decode_kind(v: JsonValue) -> Option<(Option<Seq<char>>, Option<u64>)> {
    if !struct_shaped(v, 2) {
        None
    } else {
        match (optional_text(field(v, 0, "e"@)), optional_u64(field(v, 1, "u"@))) {
            (Ok(e), Ok(u)) => Some((e, u)),
            _ => None,
        }
    }
}

/// The rows of an all-market array, when every one reads as a 24h ticker.
pub open spec fn decode_ticker_rows(rows: Seq<JsonValue>) -> Option<Seq<SpotTickerView>>
    decreases rows.len(),
{
    if rows.len() == 0 {
        Some(Seq::empty())
    } else {
        match (decode_ticker_rows(rows.drop_last()), decode_ticker(rows.last())) {
            (Some(prev), Some(row)) => Some(prev.push(row)),
            _ => None,
        }
    }
}

/// The rows that are 24h tickers, in order.
pub open spec fn complete_tickers(rows: Seq<SpotTickerView>) -> Seq<SpotUpdateView>
    decreases rows.len(),
{
    if rows.len() == 0 {
        Seq::empty()
    } else if rows.last().event_type == EVENT_24H_TICKER@ {
        complete_tickers(rows.drop_last()).push(SpotUpdateView::Ticker(rows.last()))
    } else {
        complete_tickers(rows.drop_last())
    }
}

/// What a single frame value is: a 24h ticker when `e` says so, otherwise a
/// best bid and offer when it carries an update id, otherwise nothing.
pub open spec fn value_update(v: JsonValue) -> Option<SpotUpdateView> {
    match decode_kind(v) {
        None => None,
        Some((e, u)) => if e == Some(EVENT_24H_TICKER@) {
            match decode_ticker(v) {
                Some(t) => Some(SpotUpdateView::Ticker(t)),
                None => None,
            }
        } else if u is Some {
            match decode_book(v) {
                Some(b) => Some(SpotUpdateView::Book(b)),
                None => None,
            }
        } else {
            None
        },
    }
}

pub open spec fn single_update(v: JsonValue) -> Seq<SpotUpdateView> {
    match value_update(v) {
        Some(u) => seq![u],
        None => Seq::empty(),
    }
}

/// The updates in a payload: an array of 24h tickers gives those whose
/// event type is `24hrTicker`; any other value is read as a single frame.
pub open spec fn payload_updates(p: JsonValue) -> Seq<SpotUpdateView> {
    match p {
        JsonValue::Array(items) => match decode_ticker_rows(items@) {
            Some(rows) => complete_tickers(rows),
            None => single_update(p),
        },
        _ => single_update(p),
    }
}

/// The `data` of a combined-stream envelope.
pub open spec fn envelope_data(doc: JsonValue) -> Option<JsonValue> {
    if struct_shaped(doc, 1) {
        field(doc, 0, "data"@)
    } else {
        None
    }
}

/// The updates a text frame carries; none when the text is not JSON.
/// The updates of a decoded frame: those of its `data` member when it is
/// wrapped in a combined-stream envelope, else its own.
pub open spec fn value_updates(doc: JsonValue) -> Seq<SpotUpdateView> {
    match envelope_data(doc) {
        Some(data) => payload_updates(data),
        None => payload_updates(doc),
    }
}

pub open spec fn ticker_updates(text: Seq<char>) -> Seq<SpotUpdateView> {
    match json_document(text) {
        None => Seq::empty(),
        Some(doc) => value_updates(doc),
    }
}

proof fn lemma_complete_tickers(rows: Seq<SpotTickerView>)
    ensures
        forall|i: int|
            0 <= i < complete_tickers(rows).len() ==> (#[trigger] complete_tickers(rows)[i]
                matches SpotUpdateView::Ticker(t) && t.event_type == EVENT_24H_TICKER@),
    decreases rows.len(),
{
    if rows.len() > 0 {
        lemma_complete_tickers(rows.drop_last());
    }
}

/// Every 24h ticker a frame yields has the event type `24hrTicker`: rows of
/// other event types in an all-market array are left out, and a single
/// frame is read as a ticker only when it says it is one.
pub proof fn tickers_are_24h_tickers(text: Seq<char>)
    ensures
        forall|i: int|
            0 <= i < ticker_updates(text).len() ==> (#[trigger] ticker_updates(text)[i] matches SpotUpdateView::Ticker(
                t,
            ) ==> t.event_type == EVENT_24H_TICKER@),
{
    match json_document(text) {
        None => {},
        Some(doc) => {
            let p = match envelope_data(doc) {
                Some(data) => data,
                None => doc,
            };
            assert(ticker_updates(text) == payload_updates(p));
            let many = match p {
                JsonValue::Array(items) => decode_ticker_rows(items@),
                _ => None,
            };
            match many {
                Some(rows) => {
                    lemma_complete_tickers(rows);
                },
                None => {
                    assert(payload_updates(p) == single_update(p));
                },
            }
        },
    }
}

// ---------------------------------------------------------------------------
// Decoding
// ---------------------------------------------------------------------------

fn decode_ticker_value(v: &JsonValue) -> (r: Option<SpotTicker24hUpdate>)
    ensures
        match r {
            Some(t) => decode_ticker(*v) == Some(t@),
            None => decode_ticker(*v).is_none(),
        },
{
    if !is_struct_shaped(v, 10) {
        return None;
    }
    let event_type = match decode_text_field(v, 0, "e") {
        Ok(t) => t,
        Err(_) => return None,
    };
    let event_time = match decode_i64_field(v, 1, "E") {
        Ok(n) => n,
        Err(_) => return None,
    };
    let symbol = match decode_text_field(v, 2, "s") {
        Ok(t) => t,
        Err(_) => return None,
    };
    let last_price = match decode_text_field(v, 3, "c") {
        Ok(t) => t,
        Err(_) => return None,
    };
    let quote_volume = match decode_text_field(v, 4, "q") {
        Ok(t) => t,
        Err(_) => return None,
    };
    let bid_price = match decode_text_field(v, 5, "b") {
        Ok(t) => t,
        Err(_) => return None,
    };
    let bid_qty = match decode_text_field(v, 6, "B") {
        Ok(t) => t,
        Err(_) => return None,
    };
    let ask_price = match decode_text_field(v, 7, "a") {
        Ok(t) => t,
        Err(_) => return None,
    };
    let ask_qty = match decode_text_field(v, 8, "A") {
        Ok(t) => t,
        Err(_) => return None,
    };
    let close_time = match decode_i64_field(v, 9, "C") {
        Ok(n) => n,
        Err(_) => return None,
    };
    Some(
        SpotTicker24hUpdate {
            event_type,
            event_time,
            symbol,
            last_price,
            quote_volume,
            bid_price,
            bid_qty,
            ask_price,
            ask_qty,
            close_time,
        },
    )
}

fn decode_book_value(v: &JsonValue) -> (r: Option<SpotBookTickerUpdate>)
    ensures
        match r {
            Some(b) => decode_book(*v) == Some(b@),
            None => decode_book(*v).is_none(),
        },
{
    if !is_struct_shaped(v, 5) {
        return None;
    }
    let symbol = match decode_text_field(v, 0, "s") {
        Ok(t) => t,
        Err(_) => return None,
    };
    let bid_price = match decode_text_field(v, 1, "b") {
        Ok(t) => t,
        Err(_) => return None,
    };
    let bid_qty = match decode_text_field(v, 2, "B") {
        Ok(t) => t,
        Err(_) => return None,
    };
    let ask_price = match decode_text_field(v, 3, "a") {
        Ok(t) => t,
        Err(_) => return None,
    };
    let ask_qty = match decode_text_field(v, 4, "A") {
        Ok(t) => t,
        Err(_) => return None,
    };
    Some(SpotBookTickerUpdate { symbol, bid_price, bid_qty, ask_price, ask_qty })
}

/// The update a single frame value carries, if any.
fn decode_value_update(v: &JsonValue) -> (r: Option<BinanceSpotTickerUpdate>)
    ensures
        match r {
            Some(u) => value_update(*v) == Some(u@),
            None => value_update(*v).is_none(),
        },
{
    if !is_struct_shaped(v, 2) {
        return None;
    }
    let event_type = match decode_optional_text_field(v, 0, "e") {
        Ok(e) => e,
        Err(_) => return None,
    };
    let update_id = match decode_optional_u64_field(v, 1, "u") {
        Ok(u) => u,
        Err(_) => return None,
    };
    let is_ticker = match &event_type {
        Some(e) => str_eq(e.as_str(), EVENT_24H_TICKER),
        None => false,
    };
    if is_ticker {
        match decode_ticker_value(v) {
            Some(t) => Some(BinanceSpotTickerUpdate::Ticker(t)),
            None => None,
        }
    } else if update_id.is_some() {
        match decode_book_value(v) {
            Some(b) => Some(BinanceSpotTickerUpdate::Book(b)),
            None => None,
        }
    } else {
        None
    }
}

proof fn lemma_ticker_rows_fail(items: Seq<JsonValue>, i: int)
    requires
        0 <= i < items.len(),
        decode_ticker(items[i]).is_none(),
    ensures
        decode_ticker_rows(items).is_none(),
    decreases items.len(),
{
    if i < items.len() - 1 {
        lemma_ticker_rows_fail(items.drop_last(), i);
    }
}

/// The 24h tickers of an all-market array; `None` when a row does not read
/// as a ticker.
fn decode_ticker_array(items: &Vec<JsonValue>) -> (r: Option<Vec<BinanceSpotTickerUpdate>>)
    ensures
        match r {
            Some(out) => match decode_ticker_rows(items@) {
                Some(rows) => updates_view(out@) == complete_tickers(rows),
                None => false,
            },
            None => decode_ticker_rows(items@).is_none(),
        },
{
    let mut out: Vec<BinanceSpotTickerUpdate> = Vec::new();
    let ghost mut rows: Seq<SpotTickerView> = Seq::empty();
    let n = items.len();
    let mut i: usize = 0;
    while i < n
        invariant
            n == items@.len(),
            i <= n,
            decode_ticker_rows(items@.subrange(0, i as int)) == Some(rows),
            updates_view(out@) == complete_tickers(rows),
        decreases n - i,
    {
        let ghost next = items@.subrange(0, i + 1);
        assert(next.drop_last() =~= items@.subrange(0, i as int));
        assert(next.last() == items@[i as int]);
        match decode_ticker_value(&items[i]) {
            None => {
                proof {
                    lemma_ticker_rows_fail(items@, i as int);
                }
                return None;
            },
            Some(t) => {
                let ghost row = t@;
                let ghost prev_out = updates_view(out@);
                proof {
                    assert(rows.push(row).drop_last() =~= rows);
                    assert(rows.push(row).last() == row);
                }
                if str_eq(t.event_type.as_str(), EVENT_24H_TICKER) {
                    out.push(BinanceSpotTickerUpdate::Ticker(t));
                    assert(updates_view(out@) =~= prev_out.push(SpotUpdateView::Ticker(row)));
                }
                proof {
                    rows = rows.push(row);
                }
            },
        }
        i = i + 1;
    }
    assert(items@.subrange(0, n as int) =~= items@);
    Some(out)
}

fn decode_single(v: &JsonValue) -> (r: Vec<BinanceSpotTickerUpdate>)
    ensures
        updates_view(r@) == single_update(*v),
{
    let mut out: Vec<BinanceSpotTickerUpdate> = Vec::new();
    match decode_value_update(v) {
        Some(u) => {
            out.push(u);
            assert(updates_view(out@) =~= single_update(*v));
        },
        None => {
            assert(updates_view(out@) =~= single_update(*v));
        },
    }
    out
}

fn decode_payload(p: &JsonValue) -> (r: Vec<BinanceSpotTickerUpdate>)
    ensures
        updates_view(r@) == payload_updates(*p),
{
    match p {
        JsonValue::Array(items) => match decode_ticker_array(items) {
            Some(out) => out,
            None => decode_single(p),
        },
        _ => decode_single(p),
    }
}

/// The updates of a text frame, in frame order: a combined-stream envelope
/// is unwrapped to its `data`; an array of 24h tickers gives those of event
/// type `24hrTicker`; a single 24h ticker or best bid and offer gives itself.
/// Acknowledgements, other events and text that is not JSON give nothing.
pub fn parse_ticker_updates(text: &str) -> (r: Vec<BinanceSpotTickerUpdate>)
    ensures
        updates_view(r@) == ticker_updates(text@),
{
    match parse_json(text) {
        None => {
            let out: Vec<BinanceSpotTickerUpdate> = Vec::new();
            assert(updates_view(out@) =~= ticker_updates(text@));
            out
        },
        Some(doc) => ticker_updates_from_value(&doc),
    }
}

/// The updates of a decoded frame.
pub fn ticker_updates_from_value(doc: &JsonValue) -> (r: Vec<BinanceSpotTickerUpdate>)
    ensures
        updates_view(r@) == value_updates(*doc),
{
    let data = if is_struct_shaped(doc, 1) {
        crate::json::get_field(doc, 0, "data")
    } else {
        None
    };
    match data {
        Some(d) => decode_payload(d),
        None => decode_payload(doc),
    }
}

/// The first update of a text frame.
pub fn parse_ticker_update(text: &str) -> (r: Option<BinanceSpotTickerUpdate>)
    ensures
        match r {
            Some(u) => ticker_updates(text@).len() > 0 && u@ == ticker_updates(text@)[0],
            None => ticker_updates(text@).len() == 0,
        },
{
    let mut all = parse_ticker_updates(text);
    if all.len() == 0 {
        None
    } else {
        let first = all.remove(0);
        Some(first)
    }
}

// ---------------------------------------------------------------------------
// Subscription replies
// ---------------------------------------------------------------------------

/// The reply to a subscribe or unsubscribe request: the request id, and the
/// error code and message when the venue refused it.
#[derive(Debug, PartialEq, Eq)]
pub struct ControlResponse {
    pub id: u64,
    pub code: Option<i64>,
    pub message: Option<String>,
}

pub ghost struct ControlView {
    pub id: u64,
    pub code: Option<i64>,
    pub message: Option<Seq<char>>,
}

impl View for ControlResponse {
    type V = ControlView;

    open spec fn view(&self) -> ControlView {
        ControlView {
            id: self.id,
            code: self.code,
            message: match self.message {
                Some(m) => Some(m@),
                None => None,
            },
        }
    }
}

pub open spec fn integer_of(x: Option<JsonValue>) -> Option<i64> {
    match x {
        Some(v) => number_i64(v),
        None => None,
    }
}

pub open spec fn string_of(x: Option<JsonValue>) -> Option<Seq<char>> {
    match x {
        Some(JsonValue::Str(s)) => Some(s@),
        _ => None,
    }
}

/// A reply is a document with an unsigned integer `id`; `code` counts only
/// when it is an integer and `msg` only when it is a string.
pub open spec fn control_of(doc: JsonValue) -> Option<ControlView> {
    match member(doc, "id"@) {
        Some(v) => match number_u64(v) {
            Some(id) => Some(
                ControlView {
                    id,
                    code: integer_of(member(doc, "code"@)),
                    message: string_of(member(doc, "msg"@)),
                },
            ),
            None => None,
        },
        None => None,
    }
}

pub open spec fn control_response(text: Seq<char>) -> Option<ControlView> {
    match json_document(text) {
        Some(doc) => control_of(doc),
        None => None,
    }
}

pub fn parse_control_response(text: &str) -> (r: Option<ControlResponse>)
    ensures
        match r {
            Some(c) => control_response(text@) == Some(c@),
            None => control_response(text@).is_none(),
        },
{
    let doc = match parse_json(text) {
        Some(d) => d,
        None => return None,
    };
    let id = match get(&doc, "id") {
        Some(v) => match read_u64(v) {
            Some(id) => id,
            None => return None,
        },
        None => return None,
    };
    let code = match get(&doc, "code") {
        Some(v) => read_i64(v),
        None => None,
    };
    let message = match get(&doc, "msg") {
        Some(JsonValue::Str(s)) => Some(s.clone()),
        _ => None,
    };
    Some(ControlResponse { id, code, message })
}

/// The refusal a reply reports, if any: `code <code> · <message>`, or
/// whichever of the two the reply carries.
pub open spec fn problem_of(c: ControlView) -> Option<Seq<char>> {
    match (c.code, c.message) {
        (Some(code), Some(m)) => Some("code "@ + int_text(code as int) + " · "@ + m),
        (Some(code), None) => Some("code "@ + int_text(code as int)),
        (None, Some(m)) => Some(m),
        (None, None) => None,
    }
}

impl ControlResponse {
    pub fn problem(&self) -> (r: Option<String>)
        ensures
            match r {
                Some(p) => problem_of(self@) == Some(p@),
                None => problem_of(self@).is_none(),
            },
    {
        match (self.code, &self.message) {
            (Some(code), Some(message)) => {
                let mut out = String::new();
                push_str(&mut out, "code ");
                push_int(&mut out, code);
                push_str(&mut out, " · ");
                push_str(&mut out, message.as_str());
                assert(out@ =~= "code "@ + int_text(code as int) + " · "@ + message@);
                Some(out)
            },
            (Some(code), None) => {
                let mut out = String::new();
                push_str(&mut out, "code ");
                push_int(&mut out, code);
                assert(out@ =~= "code "@ + int_text(code as int));
                Some(out)
            },
            (None, Some(message)) => Some(message.clone()),
            (None, None) => None,
        }
    }
}

// ---------------------------------------------------------------------------
// Subscriptions
// ---------------------------------------------------------------------------

/// The lower-case stream name of a user-supplied pair.
pub open spec fn stream_symbol_of(s: Seq<char>) -> Option<Seq<char>> {
    match compact_pair(s) {
        Some(c) => Some(lower(c)),
        None => None,
    }
}

/// Stream names are lower case.
pub proof fn stream_names_are_lower_case(s: Seq<char>)
    ensures
        stream_symbol_of(s) matches Some(x) ==> lower(x) == x,
{
    if let Some(c) = compact_pair(s) {
        assert(lower(lower(c)) =~= lower(c)) by {
            assert forall|i: int| 0 <= i < lower(c).len() implies #[trigger] lower(lower(c))[i]
                == lower(c)[i] by {
                let ch = c[i];
                if 'A' <= ch && ch <= 'Z' {
                    assert(lower_char(ch) == ((ch as u32) + 32) as char);
                }
            }
        }
    }
}

/// `btc`, `BTC/USDT` and `btc-usdt` all give `btcusdt`; blank gives nothing.
pub fn stream_symbol(symbol: &str) -> (r: Option<String>)
    ensures
        match r {
            Some(s) => stream_symbol_of(symbol@) == Some(s@),
            None => stream_symbol_of(symbol@).is_none(),
        },
{
    match compact_pair_symbol(symbol) {
        Some(c) => Some(to_lower(c.as_str())),
        None => None,
    }
}

pub open spec fn all_stream_symbols(list: Seq<Seq<char>>) -> Option<Seq<Seq<char>>>
    decreases list.len(),
{
    if list.len() == 0 {
        Some(Seq::empty())
    } else {
        match (all_stream_symbols(list.drop_last()), stream_symbol_of(list.last())) {
            (Some(prev), Some(s)) => Some(prev.push(s)),
            _ => None,
        }
    }
}

/// The stream names of a selection: nothing for an empty selection or when
/// any entry is blank.
pub open spec fn stream_symbols_of(list: Seq<Seq<char>>) -> Option<Seq<Seq<char>>> {
    if list.len() == 0 {
        None
    } else {
        all_stream_symbols(list)
    }
}

proof fn lemma_stream_symbols_fail(list: Seq<Seq<char>>, i: int)
    requires
        0 <= i < list.len(),
        stream_symbol_of(list[i]).is_none(),
    ensures
        all_stream_symbols(list).is_none(),
    decreases list.len(),
{
    if i < list.len() - 1 {
        lemma_stream_symbols_fail(list.drop_last(), i);
    }
}

pub fn stream_symbols(symbols: &[String]) -> (r: Option<Vec<String>>)
    ensures
        match r {
            Some(out) => stream_symbols_of(views(symbols@)) == Some(views(out@)),
            None => stream_symbols_of(views(symbols@)).is_none(),
        },
{
    let ghost list = views(symbols@);
    let n = symbols.len();
    if n == 0 {
        return None;
    }
    let mut out: Vec<String> = Vec::new();
    let mut i: usize = 0;
    while i < n
        invariant
            n == symbols@.len(),
            list == views(symbols@),
            i <= n,
            all_stream_symbols(list.subrange(0, i as int)) == Some(views(out@)),
        decreases n - i,
    {
        let ghost next = list.subrange(0, i + 1);
        assert(next.drop_last() =~= list.subrange(0, i as int));
        assert(next.last() == symbols@[i as int]@);
        match stream_symbol(symbols[i].as_str()) {
            Some(s) => {
                out.push(s);
                assert(views(out@) =~= views(out@).drop_last().push(out@.last()@));
                assert(views(out@).drop_last() =~= views(out@.drop_last()));
            },
            None => {
                proof {
                    lemma_stream_symbols_fail(list, i as int);
                }
                return None;
            },
        }
        i = i + 1;
    }
    assert(list.subrange(0, n as int) =~= list);
    Some(out)
}

/// The two streams of each symbol: `<s>@ticker` then `<s>@bookTicker`.
pub open spec fn stream_params(symbols: Seq<Seq<char>>) -> Seq<Seq<char>>
    decreases symbols.len(),
{
    if symbols.len() == 0 {
        Seq::empty()
    } else {
        stream_params(symbols.drop_last()) + seq![
            symbols.last() + "@ticker"@,
            symbols.last() + "@bookTicker"@,
        ]
    }
}

/// Each symbol gives exactly two streams, in order: its 24h ticker, then
/// its realtime best bid and offer.
pub proof fn each_symbol_gives_ticker_and_book_streams(symbols: Seq<Seq<char>>)
    ensures
        stream_params(symbols).len() == 2 * symbols.len(),
        forall|i: int|
            0 <= i < symbols.len() ==> stream_params(symbols)[2 * i] == #[trigger] symbols[i]
                + "@ticker"@ && stream_params(symbols)[2 * i + 1] == symbols[i] + "@bookTicker"@,
    decreases symbols.len(),
{
    if symbols.len() > 0 {
        let prev = symbols.drop_last();
        each_symbol_gives_ticker_and_book_streams(prev);
        assert forall|i: int| 0 <= i < symbols.len() implies stream_params(symbols)[2 * i]
            == #[trigger] symbols[i] + "@ticker"@ && stream_params(symbols)[2 * i + 1] == symbols[i]
            + "@bookTicker"@ by {
            if i < prev.len() {
                assert(prev[i] == symbols[i]);
            }
        }
    }
}

/// The request body, members in key order:
/// `{"id":<id>,"method":<method>,"params":[...]}`.
pub open spec fn subscription_json(method: Seq<char>, symbols: Seq<Seq<char>>, id: u64) -> Seq<
    char,
> {
    seq!['{'] + quoted("id"@) + seq![':'] + nat_text(id as nat) + seq![','] + quoted("method"@)
        + seq![':'] + quoted(method) + seq![','] + quoted("params"@) + seq![':'] + text_array(
        stream_params(symbols),
    ) + seq!['}']
}

fn suffixed(symbol: &String, suffix: &str) -> (r: String)
    ensures
        r@ == symbol@ + suffix@,
{
    let mut s = symbol.clone();
    push_str(&mut s, suffix);
    s
}

/// A `SUBSCRIBE` / `UNSUBSCRIBE` request for the ticker and book streams of
/// `symbols`.
pub fn subscription_payload(method: &str, symbols: &[String], request_id: u64) -> (r: String)
    ensures
        r@ == subscription_json(method@, views(symbols@), request_id),
{
    let ghost list = views(symbols@);
    let n = symbols.len();
    let mut params: Vec<String> = Vec::new();
    let mut i: usize = 0;
    while i < n
        invariant
            n == symbols@.len(),
            list == views(symbols@),
            i <= n,
            views(params@) == stream_params(list.subrange(0, i as int)),
        decreases n - i,
    {
        let ghost next = list.subrange(0, i + 1);
        assert(next.drop_last() =~= list.subrange(0, i as int));
        assert(next.last() == symbols@[i as int]@);
        let ghost before = views(params@);
        params.push(suffixed(&symbols[i], "@ticker"));
        params.push(suffixed(&symbols[i], "@bookTicker"));
        assert(views(params@) =~= before + seq![
            symbols@[i as int]@ + "@ticker"@,
            symbols@[i as int]@ + "@bookTicker"@,
        ]);
        i = i + 1;
    }
    assert(list.subrange(0, n as int) =~= list);
    let mut out = String::new();
    push_char(&mut out, '{');
    push_number_member(&mut out, "id", request_id);
    push_char(&mut out, ',');
    push_text_member(&mut out, "method", method);
    push_char(&mut out, ',');
    push_quoted(&mut out, "params");
    push_char(&mut out, ':');
    push_text_array(&mut out, &params);
    push_char(&mut out, '}');
    assert(out@ =~= subscription_json(method@, list, request_id));
    out
}

/// Whether a frame cached at `cached_at_ms` is still usable at `now`.
pub fn is_fresh(cached_at_ms: i64, now: i64) -> (r: bool)
    ensures
        r == (now - cached_at_ms <= CACHE_MAX_AGE_MS),
{
    (now as i128) - (cached_at_ms as i128) <= (CACHE_MAX_AGE_MS as i128)
}

/// How long a sent subscribe request may wait for the venue's answer
/// before the wait is reported with its age.
pub const SUBSCRIPTION_ACK_WAIT_MS: i64 = 3000;

/// What a caller is told about a symbol that has no fresh quote: the
/// venue's refusal, or where the subscription stands; nothing for a symbol
/// that is not subscribed.
pub open spec fn subscription_problem_of(
    refusal: Option<Seq<char>>,
    state: Option<SubscriptionState>,
    now_ms: i64,
) -> Option<Seq<char>> {
    match refusal {
        Some(p) => Some("订阅被交易所拒绝："@ + p),
        None => match state {
            None => None,
            Some(s) => if s.acknowledged_on_current_connection {
                Some("订阅已确认，正在等待首个最优买卖价变化"@)
            } else {
                match s.sent_at_ms {
                    None => Some("正在建立连接并发送精确交易对订阅"@),
                    Some(sent_at) => {
                        let age = if now_ms - sent_at > i64::MAX {
                            i64::MAX as int
                        } else if now_ms - sent_at < i64::MIN {
                            i64::MIN as int
                        } else {
                            now_ms - sent_at
                        };
                        if age >= SUBSCRIPTION_ACK_WAIT_MS {
                            Some("订阅请求已发送，但 "@ + int_text(age) + "ms 内未收到交易所确认"@)
                        } else {
                            Some("订阅请求已发送，等待交易所确认"@)
                        }
                    },
                }
            },
        },
    }
}

/// What a caller is told about a symbol without a fresh quote, from the
/// venue's refusal of its subscription, if any, and its subscription state.
pub fn subscription_problem(
    refusal: Option<&str>,
    state: Option<SubscriptionState>,
    now_ms: i64,
) -> (r: Option<String>)
    ensures
        match r {
            Some(t) => subscription_problem_of(
                match refusal {
                    Some(p) => Some(p@),
                    None => None,
                },
                state,
                now_ms,
            ) == Some(t@),
            None => subscription_problem_of(
                match refusal {
                    Some(p) => Some(p@),
                    None => None,
                },
                state,
                now_ms,
            ).is_none(),
        },
{
    if let Some(p) = refusal {
        let mut out = String::new();
        push_str(&mut out, "订阅被交易所拒绝：");
        push_str(&mut out, p);
        return Some(out);
    }
    let s = match state {
        Some(s) => s,
        None => {
            return None;
        },
    };
    if s.acknowledged_on_current_connection {
        return Some("订阅已确认，正在等待首个最优买卖价变化".to_owned());
    }
    let sent_at = match s.sent_at_ms {
        Some(t) => t,
        None => {
            return Some("正在建立连接并发送精确交易对订阅".to_owned());
        },
    };
    let d: i128 = now_ms as i128 - sent_at as i128;
    let age: i64 = if d > 9223372036854775807 {
        9223372036854775807
    } else if d < -9223372036854775808 {
        -9223372036854775808
    } else {
        d as i64
    };
    if age >= SUBSCRIPTION_ACK_WAIT_MS {
        let mut out = String::new();
        push_str(&mut out, "订阅请求已发送，但 ");
        push_int(&mut out, age);
        push_str(&mut out, "ms 内未收到交易所确认");
        Some(out)
    } else {
        Some("订阅请求已发送，等待交易所确认".to_owned())
    }
}

} // verus!
