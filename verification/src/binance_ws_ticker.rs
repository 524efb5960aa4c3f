//! Binance USD-M futures public ticker stream: `bookTicker` frames from the
//! public socket and `24hrTicker` frames from the market socket, the
//! subscription requests for each, and the rate limit on lag reports.

use vstd::prelude::*;
use crate::json::{
    decode_i64_field, decode_optional_text_field, decode_text_field, field, i64_or_default,
    is_struct_shaped, json_document, optional_text, parse_json, struct_shaped, text_or_default,
    JsonValue,
};
use crate::json_out::{push_number_member, push_quoted, push_text_array, push_text_member, quoted, text_array};
use crate::symbols::{usdm_stream, usdm_stream_symbol, views};
use crate::text::{nat_text, push_char, push_str, str_eq};

verus! {

pub const WS_PUBLIC_URL: &'static str = "wss://fstream.binance.com/public/ws";
pub const WS_MARKET_URL: &'static str = "wss://fstream.binance.com/market/ws";
pub const EVENT_24H_TICKER: &'static str = "24hrTicker";
pub const EVENT_BOOK_TICKER: &'static str = "bookTicker";
/// How long a cached frame stays usable, in milliseconds.
pub const CACHE_MAX_AGE_MS: i64 = 30_000;
/// The least time between two lag reports, in milliseconds.
pub const LAG_REPORT_INTERVAL_MS: i64 = 5_000;

// ---------------------------------------------------------------------------
// Frames
// ---------------------------------------------------------------------------

#[derive(Debug)]
pub struct Ticker24hUpdate {
    pub event_time: i64,
    pub symbol: String,
    pub last_price: String,
    pub quote_volume: String,
    pub bid_price: String,
    pub ask_price: String,
    pub close_time: i64,
}

pub ghost struct TickerView {
    pub event_time: i64,
    pub symbol: Seq<char>,
    pub last_price: Seq<char>,
    pub quote_volume: Seq<char>,
    pub bid_price: Seq<char>,
    pub ask_price: Seq<char>,
    pub close_time: i64,
}

impl View for Ticker24hUpdate {
    type V = TickerView;

    open spec fn view(&self) -> TickerView {
        TickerView {
            event_time: self.event_time,
            symbol: self.symbol@,
            last_price: self.last_price@,
            quote_volume: self.quote_volume@,
            bid_price: self.bid_price@,
            ask_price: self.ask_price@,
            close_time: self.close_time,
        }
    }
}

#[derive(Debug)]
pub struct BookTickerUpdate {
    pub event_time: i64,
    pub transaction_time: i64,
    pub symbol: String,
    pub bid_price: String,
    pub ask_price: String,
}

pub ghost struct BookView {
    pub event_time: i64,
    pub transaction_time: i64,
    pub symbol: Seq<char>,
    pub bid_price: Seq<char>,
    pub ask_price: Seq<char>,
}

impl View for BookTickerUpdate {
    type V = BookView;

    open spec fn view(&self) -> BookView {
        BookView {
            event_time: self.event_time,
            transaction_time: self.transaction_time,
            symbol: self.symbol@,
            bid_price: self.bid_price@,
            ask_price: self.ask_price@,
        }
    }
}

#[derive(Debug)]
pub enum BinanceTickerUpdate {
    Ticker(Ticker24hUpdate),
    Book(BookTickerUpdate),
}

pub ghost enum UpdateView {
    Ticker(TickerView),
    Book(BookView),
}

impl View for BinanceTickerUpdate {
    type V = UpdateView;

    open spec fn view(&self) -> UpdateView {
        match self {
            BinanceTickerUpdate::Ticker(t) => UpdateView::Ticker(t@),
            BinanceTickerUpdate::Book(b) => UpdateView::Book(b@),
        }
    }
}

// ---------------------------------------------------------------------------
// Decoding
// ---------------------------------------------------------------------------

/// The event type `e` of a frame, when it has one.
pub open spec fn decode_kind(v: JsonValue) -> Option<Option<Seq<char>>> {
    if !struct_shaped(v, 1) {
        None
    } else {
        match optional_text(field(v, 0, "e"@)) {
            Ok(e) => Some(e),
            Err(_) => None,
        }
    }
}

pub open spec fn decode_ticker(v: JsonValue) -> Option<TickerView> {
    if !struct_shaped(v, 7) {
        None
    } else {
        let t = |i: nat, k: Seq<char>| text_or_default(field(v, i, k));
        match (
            i64_or_default(field(v, 0, "E"@)),
            t(1, "s"@),
            t(2, "c"@),
            t(3, "q"@),
            t(4, "b"@),
            t(5, "a"@),
            i64_or_default(field(v, 6, "C"@)),
        ) {
            (Ok(et), Ok(s), Ok(c), Ok(q), Ok(b), Ok(a), Ok(ct)) => Some(
                TickerView {
                    event_time: et,
                    symbol: s,
                    last_price: c,
                    quote_volume: q,
                    bid_price: b,
                    ask_price: a,
                    close_time: ct,
                },
            ),
            _ => None,
        }
    }
}

pub open spec fn decode_book(v: JsonValue) -> Option<BookView> {
    if !struct_shaped(v, 5) {
        None
    } else {
        let t = |i: nat, k: Seq<char>| text_or_default(field(v, i, k));
        match (
            i64_or_default(field(v, 0, "E"@)),
            i64_or_default(field(v, 1, "T"@)),
            t(2, "s"@),
            t(3, "b"@),
            t(4, "a"@),
        ) {
            (Ok(et), Ok(tt), Ok(s), Ok(b), Ok(a)) => Some(
                BookView {
                    event_time: et,
                    transaction_time: tt,
                    symbol: s,
                    bid_price: b,
                    ask_price: a,
                },
            ),
            _ => None,
        }
    }
}

/// What a frame is: a 24h ticker or a best bid and offer, as its event type
/// says; nothing for other events, replies and text that is not JSON.
/// What a decoded frame is: a 24h ticker or a best bid and offer, by its
/// event type.
pub open spec fn ticker_update_of(doc: JsonValue) -> Option<UpdateView> {
    match decode_kind(doc) {
        Some(Some(e)) => if e == EVENT_24H_TICKER@ {
            match decode_ticker(doc) {
                Some(t) => Some(UpdateView::Ticker(t)),
                None => None,
            }
        } else if e == EVENT_BOOK_TICKER@ {
            match decode_book(doc) {
                Some(b) => Some(UpdateView::Book(b)),
                None => None,
            }
        } else {
            None
        },
        _ => None,
    }
}

/// A frame is a 24h ticker only when its event type is `24hrTicker`, and a
/// best bid and offer only when it is `bookTicker`; a frame of any other
/// event, or of none, is neither.
pub proof fn updates_follow_their_event_type(doc: JsonValue)
    ensures
        ticker_update_of(doc) matches Some(UpdateView::Ticker(t)) ==> decode_kind(doc) == Some(
            Some("24hrTicker"@),
        ) && decode_ticker(doc) == Some(t),
        ticker_update_of(doc) matches Some(UpdateView::Book(b)) ==> decode_kind(doc) == Some(
            Some("bookTicker"@),
        ) && decode_book(doc) == Some(b),
        (decode_kind(doc) matches Some(Some(e)) && e != "24hrTicker"@ && e != "bookTicker"@)
            ==> ticker_update_of(doc) is None,
        decode_kind(doc) == Some(None::<Seq<char>>) ==> ticker_update_of(doc) is None,
{
}

pub open spec fn ticker_update(text: Seq<char>) -> Option<UpdateView> {
    match json_document(text) {
        None => None,
        Some(doc) => ticker_update_of(doc),
    }
}

fn decode_ticker_value(v: &JsonValue) -> (r: Option<Ticker24hUpdate>)
    ensures
        match r {
            Some(t) => decode_ticker(*v) == Some(t@),
            None => decode_ticker(*v).is_none(),
        },
{
    if !is_struct_shaped(v, 7) {
        return None;
    }
    let event_time = match decode_i64_field(v, 0, "E") {
        Ok(n) => n,
        Err(_) => return None,
    };
    let symbol = match decode_text_field(v, 1, "s") {
        Ok(t) => t,
        Err(_) => return None,
    };
    let last_price = match decode_text_field(v, 2, "c") {
        Ok(t) => t,
        Err(_) => return None,
    };
    let quote_volume = match decode_text_field(v, 3, "q") {
        Ok(t) => t,
        Err(_) => return None,
    };
    let bid_price = match decode_text_field(v, 4, "b") {
        Ok(t) => t,
        Err(_) => return None,
    };
    let ask_price = match decode_text_field(v, 5, "a") {
        Ok(t) => t,
        Err(_) => return None,
    };
    let close_time = match decode_i64_field(v, 6, "C") {
        Ok(n) => n,
        Err(_) => return None,
    };
    Some(
        Ticker24hUpdate {
            event_time,
            symbol,
            last_price,
            quote_volume,
            bid_price,
            ask_price,
            close_time,
        },
    )
}

fn decode_book_value(v: &JsonValue) -> (r: Option<BookTickerUpdate>)
    ensures
        match r {
            Some(b) => decode_book(*v) == Some(b@),
            None => decode_book(*v).is_none(),
        },
{
    if !is_struct_shaped(v, 5) {
        return None;
    }
    let event_time = match decode_i64_field(v, 0, "E") {
        Ok(n) => n,
        Err(_) => return None,
    };
    let transaction_time = match decode_i64_field(v, 1, "T") {
        Ok(n) => n,
        Err(_) => return None,
    };
    let symbol = match decode_text_field(v, 2, "s") {
        Ok(t) => t,
        Err(_) => return None,
    };
    let bid_price = match decode_text_field(v, 3, "b") {
        Ok(t) => t,
        Err(_) => return None,
    };
    let ask_price = match decode_text_field(v, 4, "a") {
        Ok(t) => t,
        Err(_) => return None,
    };
    Some(BookTickerUpdate { event_time, transaction_time, symbol, bid_price, ask_price })
}

/// Reads a decoded frame as a 24h ticker or a best bid and offer.
pub fn ticker_update_from_value(doc: &JsonValue) -> (r: Option<BinanceTickerUpdate>)
    ensures
        match r {
            Some(u) => ticker_update_of(*doc) == Some(u@),
            None => ticker_update_of(*doc).is_none(),
        },
{
    if !is_struct_shaped(doc, 1) {
        return None;
    }
    let event_type = match decode_optional_text_field(doc, 0, "e") {
        Ok(Some(e)) => e,
        _ => return None,
    };
    if str_eq(event_type.as_str(), EVENT_24H_TICKER) {
        match decode_ticker_value(doc) {
            Some(t) => Some(BinanceTickerUpdate::Ticker(t)),
            None => None,
        }
    } else if str_eq(event_type.as_str(), EVENT_BOOK_TICKER) {
        match decode_book_value(doc) {
            Some(b) => Some(BinanceTickerUpdate::Book(b)),
            None => None,
        }
    } else {
        None
    }
}

/// Reads a text frame as a 24h ticker or a best bid and offer.
pub fn parse_ticker_update(text: &str) -> (r: Option<BinanceTickerUpdate>)
    ensures
        match r {
            Some(u) => ticker_update(text@) == Some(u@),
            None => ticker_update(text@).is_none(),
        },
{
    match parse_json(text) {
        Some(doc) => ticker_update_from_value(&doc),
        None => None,
    }
}

// ---------------------------------------------------------------------------
// Subscriptions
// ---------------------------------------------------------------------------

/// The stream name of a futures symbol: `BTC` and `BTCUSDT` give `btcusdt`.
pub fn stream_symbol(symbol: &str) -> (r: String)
    ensures
        r@ == usdm_stream(symbol@),
{
    usdm_stream_symbol(symbol)
}

/// Each symbol followed by `suffix`.
pub open spec fn suffixed_all(symbols: Seq<Seq<char>>, suffix: Seq<char>) -> Seq<Seq<char>> {
    symbols.map_values(|s: Seq<char>| s + suffix)
}

/// The request body, members in key order:
/// `{"id":<id>,"method":<method>,"params":[...]}`.
pub open spec fn request_json(method: Seq<char>, params: Seq<Seq<char>>, id: u64) -> Seq<char> {
    seq!['{'] + quoted("id"@) + seq![':'] + nat_text(id as nat) + seq![','] + quoted("method"@)
        + seq![':'] + quoted(method) + seq![','] + quoted("params"@) + seq![':'] + text_array(
        params,
    ) + seq!['}']
}

fn request_payload(method: &str, symbols: &[String], suffix: &str, request_id: u64) -> (r: String)
    ensures
        r@ == request_json(method@, suffixed_all(views(symbols@), suffix@), request_id),
{
    let ghost list = views(symbols@);
    let n = symbols.len();
    let mut params: Vec<String> = Vec::new();
    let mut i: usize = 0;
    while i < n
        invariant
            n == symbols@.len(),
            list == views(symbols@),
            i <= n,
            views(params@) == suffixed_all(list.subrange(0, i as int), suffix@),
        decreases n - i,
    {
        let ghost before = views(params@);
        let mut s = symbols[i].clone();
        push_str(&mut s, suffix);
        params.push(s);
        assert(list.subrange(0, i + 1) =~= list.subrange(0, i as int).push(symbols@[i as int]@));
        assert(views(params@) =~= before.push(symbols@[i as int]@ + suffix@));
        assert(views(params@) =~= suffixed_all(list.subrange(0, i + 1), suffix@));
        i = i + 1;
    }
    assert(list.subrange(0, n as int) =~= list);
    let mut out = String::new();
    push_char(&mut out, '{');
    push_number_member(&mut out, "id", request_id);
    push_char(&mut out, ',');
    push_text_member(&mut out, "method", method);
    push_char(&mut out, ',');
    push_quoted(&mut out, "params");
    push_char(&mut out, ':');
    push_text_array(&mut out, &params);
    push_char(&mut out, '}');
    assert(out@ =~= request_json(method@, suffixed_all(list, suffix@), request_id));
    out
}

/// A request for the `<symbol>@bookTicker` streams of the public socket.
pub fn book_subscription_payload(method: &str, symbols: &[String], request_id: u64) -> (r: String)
    ensures
        r@ == request_json(method@, suffixed_all(views(symbols@), "@bookTicker"@), request_id),
{
    request_payload(method, symbols, "@bookTicker", request_id)
}

/// A request for the `<symbol>@ticker` streams of the market socket.
pub fn stats_subscription_payload(method: &str, symbols: &[String], request_id: u64) -> (r: String)
    ensures
        r@ == request_json(method@, suffixed_all(views(symbols@), "@ticker"@), request_id),
{
    request_payload(method, symbols, "@ticker", request_id)
}

/// Whether a frame cached at `cached_at_ms` is still usable at `now`.
pub fn is_fresh(cached_at_ms: i64, now: i64) -> (r: bool)
    ensures
        r == (now - cached_at_ms <= CACHE_MAX_AGE_MS),
{
    (now as i128) - (cached_at_ms as i128) <= (CACHE_MAX_AGE_MS as i128)
}

// ---------------------------------------------------------------------------
// Lag reports
// ---------------------------------------------------------------------------

/// Missed frames since the last report, and when that report was made.
#[derive(Debug)]
pub struct LagReportState {
    pub pending_missed: u64,
    pub last_reported_at_ms: i64,
}

impl Default for LagReportState {
    fn default() -> (r: Self)
        ensures
            r.pending_missed == 0,
            r.last_reported_at_ms == 0,
    {
        LagReportState { pending_missed: 0, last_reported_at_ms: 0 }
    }
}

/// The missed count after adding `missed`, wrapping as the counter does.
pub open spec fn added_missed(pending: u64, missed: u64) -> u64 {
    ((pending + missed) % 0x1_0000_0000_0000_0000) as u64
}

/// Whether a report is due at `observed_at_ms`.
pub open spec fn report_due(last_reported_at_ms: i64, observed_at_ms: i64) -> bool {
    observed_at_ms - last_reported_at_ms >= LAG_REPORT_INTERVAL_MS
}

/// The state after observing `missed` frames at `at`, and what is reported.
pub open spec fn observed(pending: u64, last: i64, missed: u64, at: i64) -> (u64, i64, Option<u64>) {
    if report_due(last, at) {
        (0, at, Some(added_missed(pending, missed)))
    } else {
        (added_missed(pending, missed), last, None)
    }
}

impl LagReportState {
    /// Counts `missed` frames; when the last report is at least the report
    /// interval old, returns everything missed since then and starts over.
    pub fn observe(&mut self, missed: u64, observed_at_ms: i64) -> (r: Option<u64>)
        ensures
            (final(self).pending_missed, final(self).last_reported_at_ms, r) == observed(
                old(self).pending_missed,
                old(self).last_reported_at_ms,
                missed,
                observed_at_ms,
            ),
    {
        let pending = self.pending_missed.wrapping_add(missed);
        assert(pending == added_missed(old(self).pending_missed, missed));
        let previous = self.last_reported_at_ms;
        if (observed_at_ms as i128) - (previous as i128) < (LAG_REPORT_INTERVAL_MS as i128) {
            self.pending_missed = pending;
            return None;
        }
        self.last_reported_at_ms = observed_at_ms;
        self.pending_missed = 0;
        Some(pending)
    }
}

/// Replays observations `(missed, at)` from a state: the final missed count,
/// the final report time, and the total of all reports.
pub open spec fn replay(pending: u64, last: i64, events: Seq<(u64, i64)>) -> (u64, i64, int)
    decreases events.len(),
{
    if events.len() == 0 {
        (pending, last, 0)
    } else {
        let (p, l, reported) = replay(pending, last, events.drop_last());
        let (p2, l2, r) = observed(p, l, events.last().0, events.last().1);
        (
            p2,
            l2,
            reported + match r {
                Some(n) => n as int,
                None => 0,
            },
        )
    }
}

/// All frames missed over a run of observations.
pub open spec fn total_missed(events: Seq<(u64, i64)>) -> int
    decreases events.len(),
{
    if events.len() == 0 {
        0
    } else {
        total_missed(events.drop_last()) + events.last().0
    }
}

/// Lag reports hide nothing: over any run of observations, what has been
/// reported plus what is still pending is everything missed (counted modulo
/// 2^64, as the counter wraps).
pub proof fn lag_reports_account_for_every_miss(pending: u64, last: i64, events: Seq<(u64, i64)>)
    ensures
        ({
            let (p, l, reported) = replay(pending, last, events);
            (p + reported) % 0x1_0000_0000_0000_0000 == (pending + total_missed(events))
                % 0x1_0000_0000_0000_0000
        }),
    decreases events.len(),
{
    let m: int = 0x1_0000_0000_0000_0000;
    if events.len() > 0 {
        lag_reports_account_for_every_miss(pending, last, events.drop_last());
        let (p, l, reported) = replay(pending, last, events.drop_last());
        let missed = events.last().0;
        let at = events.last().1;
        let added = added_missed(p, missed);
        assert(added == (p + missed) % m);
        let (p2, l2, r) = observed(p, l, missed, at);
        let r_int: int = match r {
            Some(n) => n as int,
            None => 0,
        };
        assert(p2 + r_int == added);
        vstd::arithmetic::div_mod::lemma_small_mod(added as nat, m as nat);
        vstd::arithmetic::div_mod::lemma_add_mod_noop(added as int, reported, m);
        vstd::arithmetic::div_mod::lemma_add_mod_noop(p + missed, reported, m);
        vstd::arithmetic::div_mod::lemma_add_mod_noop(p + reported, missed as int, m);
        vstd::arithmetic::div_mod::lemma_add_mod_noop(
            pending + total_missed(events.drop_last()),
            missed as int,
            m,
        );
        assert((added + reported) % m == (p + missed + reported) % m);
        assert((p + reported + missed) % m == (pending + total_missed(events.drop_last()) + missed)
            % m);
    }
}

} // verus!
