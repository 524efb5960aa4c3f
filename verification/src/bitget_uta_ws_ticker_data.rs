//! Bitget V3 / UTA futures ticker frames and channel requests.
//!
//! A ticker frame names its symbol and time only in the envelope
//! (`arg.symbol`, `ts`); the rows of `data` carry neither, so each row is
//! keyed by the envelope's symbol.

use vstd::prelude::*;
use crate::bitget_uta_config::{
    arg_texts, category_ws_inst_type, channel_json, channel_request, BitgetUtaCategory,
    BitgetUtaWsArgs,
};
use crate::clock::stamp_now;
use crate::json::{
    decode_optional_i64_field, decode_text_field, field, get_field, is_struct_shaped,
    json_document, list_or_default, optional_i64, parse_json, required_text, struct_shaped,
    text_or_default, JsonValue,
};
use crate::symbols::{strip_common_suffixes, strip_quote, usdt, views};
use crate::text::{push_str, str_eq, upper};

verus! {

pub const EXCHANGE: &'static str = "bitget";
pub const TOPIC: &'static str = "ticker";

/// One row of a ticker frame; every field is the decimal text the venue sent.
#[derive(Debug)]
pub struct TickerItem {
    pub last_price: String,
    pub bid1_price: String,
    pub ask1_price: String,
    pub volume_24h: String,
    pub turnover_24h: String,
    pub mark_price: String,
    pub index_price: String,
    pub open_interest: String,
    pub funding_rate: String,
    pub next_funding_time: String,
}

pub ghost struct TickerItemView {
    pub last_price: Seq<char>,
    pub bid1_price: Seq<char>,
    pub ask1_price: Seq<char>,
    pub volume_24h: Seq<char>,
    pub turnover_24h: Seq<char>,
    pub mark_price: Seq<char>,
    pub index_price: Seq<char>,
    pub open_interest: Seq<char>,
    pub funding_rate: Seq<char>,
    pub next_funding_time: Seq<char>,
}

impl View for TickerItem {
    type V = TickerItemView;

    open spec fn view(&self) -> TickerItemView {
        TickerItemView {
            last_price: self.last_price@,
            bid1_price: self.bid1_price@,
            ask1_price: self.ask1_price@,
            volume_24h: self.volume_24h@,
            turnover_24h: self.turnover_24h@,
            mark_price: self.mark_price@,
            index_price: self.index_price@,
            open_interest: self.open_interest@,
            funding_rate: self.funding_rate@,
            next_funding_time: self.next_funding_time@,
        }
    }
}

/// A ticker row with the symbol and time of its frame.
#[derive(Debug)]
pub struct CachedTicker {
    /// The pair (`BTCUSDT`), from the envelope's `arg.symbol`.
    pub symbol: String,
    pub item: TickerItem,
    /// The envelope's `ts`, or the arrival time when it has none.
    pub ts_ms: i64,
    pub cached_at_ms: i64,
}

pub ghost struct CachedTickerView {
    pub symbol: Seq<char>,
    pub item: TickerItemView,
    pub ts_ms: i64,
    pub cached_at_ms: i64,
}

impl View for CachedTicker {
    type V = CachedTickerView;

    open spec fn view(&self) -> CachedTickerView {
        CachedTickerView {
            symbol: self.symbol@,
            item: self.item@,
            ts_ms: self.ts_ms,
            cached_at_ms: self.cached_at_ms,
        }
    }
}

pub open spec fn rows_view(rows: Seq<CachedTicker>) -> Seq<CachedTickerView> {
    rows.map_values(|r: CachedTicker| r@)
}

// ---------------------------------------------------------------------------
// Channel requests
// ---------------------------------------------------------------------------

/// The futures pair of a user-supplied symbol: its base followed by `USDT`.
pub open spec fn stream_symbol_of(symbol: Seq<char>) -> Seq<char> {
    strip_quote(symbol) + usdt()
}

pub fn stream_symbol(symbol: &str) -> (r: String)
    ensures
        r@ == stream_symbol_of(symbol@),
{
    let mut s = strip_common_suffixes(symbol);
    proof {
        reveal_strlit("USDT");
        assert("USDT"@ =~= usdt());
    }
    push_str(&mut s, "USDT");
    s
}

/// The `(instType, topic, symbol)` of the ticker channel of each symbol.
pub open spec fn ticker_args(symbols: Seq<Seq<char>>) -> Seq<(Seq<char>, Seq<char>, Seq<char>)> {
    symbols.map_values(
        |s: Seq<char>|
            (
                category_ws_inst_type(BitgetUtaCategory::UsdtFutures),
                TOPIC@,
                upper(stream_symbol_of(s)),
            ),
    )
}

/// A `subscribe` / `unsubscribe` request for the USDT-futures ticker channel
/// of each symbol.
pub fn channel_payload(op: &str, symbols: &[String]) -> (r: String)
    ensures
        r@ == channel_json(op@, ticker_args(views(symbols@))),
{
    let ghost list = views(symbols@);
    let n = symbols.len();
    let mut args: Vec<BitgetUtaWsArgs> = Vec::new();
    let mut i: usize = 0;
    while i < n
        invariant
            n == symbols@.len(),
            list == views(symbols@),
            i <= n,
            arg_texts(args@) == ticker_args(list.subrange(0, i as int)),
        decreases n - i,
    {
        let ghost before = arg_texts(args@);
        let pair = stream_symbol(symbols[i].as_str());
        let arg = BitgetUtaWsArgs::new(BitgetUtaCategory::UsdtFutures, TOPIC, pair.as_str());
        args.push(arg);
        assert(list.subrange(0, i + 1) =~= list.subrange(0, i as int).push(symbols@[i as int]@));
        assert(arg_texts(args@) =~= before.push(
            (
                category_ws_inst_type(BitgetUtaCategory::UsdtFutures),
                TOPIC@,
                upper(stream_symbol_of(symbols@[i as int]@)),
            ),
        ));
        assert(arg_texts(args@) =~= ticker_args(list.subrange(0, i + 1)));
        i = i + 1;
    }
    assert(list.subrange(0, n as int) =~= list);
    channel_request(op, &args)
}

// ---------------------------------------------------------------------------
// Frames
// ---------------------------------------------------------------------------

pub open spec fn decode_item(v: JsonValue) -> Option<TickerItemView> {
    if !struct_shaped(v, 10) {
        None
    } else {
        let t = |i: nat, k: Seq<char>| text_or_default(field(v, i, k));
        match (
            (t(0, "lastPrice"@), t(1, "bid1Price"@), t(2, "ask1Price"@), t(3, "volume24h"@)),
            (t(4, "turnover24h"@), t(5, "markPrice"@), t(6, "indexPrice"@)),
            (t(7, "openInterest"@), t(8, "fundingRate"@), t(9, "nextFundingTime"@)),
        ) {
            (
                (Ok(last), Ok(bid), Ok(ask), Ok(vol)),
                (Ok(turnover), Ok(mark), Ok(index)),
                (Ok(oi), Ok(rate), Ok(next)),
            ) => Some(
                TickerItemView {
                    last_price: last,
                    bid1_price: bid,
                    ask1_price: ask,
                    volume_24h: vol,
                    turnover_24h: turnover,
                    mark_price: mark,
                    index_price: index,
                    open_interest: oi,
                    funding_rate: rate,
                    next_funding_time: next,
                },
            ),
            _ => None,
        }
    }
}

pub open spec fn decode_items(items: Seq<JsonValue>) -> Option<Seq<TickerItemView>>
    decreases items.len(),
{
    if items.len() == 0 {
        Some(Seq::empty())
    } else {
        match (decode_items(items.drop_last()), decode_item(items.last())) {
            (Some(prev), Some(item)) => Some(prev.push(item)),
            _ => None,
        }
    }
}

/// The `arg` of a frame: its required `topic` and its `symbol`.
pub open spec fn decode_arg(v: JsonValue) -> Option<(Seq<char>, Seq<char>)> {
    if !struct_shaped(v, 2) {
        None
    } else {
        match (required_text(field(v, 0, "topic"@)), text_or_default(field(v, 1, "symbol"@))) {
            (Ok(topic), Ok(symbol)) => Some((topic, symbol)),
            _ => None,
        }
    }
}

pub ghost struct EnvelopeView {
    pub topic: Seq<char>,
    pub symbol: Seq<char>,
    pub data: Seq<TickerItemView>,
    pub ts: Option<i64>,
}

/// A frame: a required `arg`, the rows of `data` (none when absent) and an
/// optional envelope time `ts`.
pub open spec fn decode_envelope(doc: JsonValue) -> Option<EnvelopeView> {
    if !struct_shaped(doc, 3) {
        None
    } else {
        match (
            field(doc, 0, "arg"@),
            list_or_default(field(doc, 1, "data"@)),
            optional_i64(field(doc, 2, "ts"@)),
        ) {
            (Some(a), Some(items), Ok(ts)) => match (decode_arg(a), decode_items(items)) {
                (Some((topic, symbol)), Some(data)) => Some(
                    EnvelopeView { topic, symbol, data, ts },
                ),
                _ => None,
            },
            _ => None,
        }
    }
}

pub open spec fn cached_row(symbol: Seq<char>, item: TickerItemView, ts_ms: i64, now: i64) -> CachedTickerView {
    CachedTickerView { symbol, item, ts_ms, cached_at_ms: now }
}

/// The rows of a ticker frame received at `now`: one per `data` row, keyed
/// by the envelope's symbol and stamped with its `ts` (or `now`). Frames of
/// other topics, frames without a symbol and text that does not read as a
/// frame give none.
pub open spec fn ticker_rows(text: Seq<char>, now: i64) -> Seq<CachedTickerView> {
    match json_document(text) {
        None => Seq::empty(),
        Some(doc) => match decode_envelope(doc) {
            None => Seq::empty(),
            Some(env) => if env.topic == TOPIC@ && env.symbol.len() > 0 {
                let ts_ms = match env.ts {
                    Some(t) => t,
                    None => now,
                };
                env.data.map_values(|item: TickerItemView| cached_row(env.symbol, item, ts_ms, now))
            } else {
                Seq::empty()
            },
        },
    }
}

/// Every row of a ticker frame is keyed by the frame's one non-empty symbol
/// and carries the time the frame arrived.
pub proof fn ticker_rows_share_the_envelope_symbol(text: Seq<char>, now: i64)
    ensures
        forall|i: int|
            0 <= i < ticker_rows(text, now).len() ==> {
                &&& (#[trigger] ticker_rows(text, now)[i]).symbol.len() > 0
                &&& ticker_rows(text, now)[i].symbol == ticker_rows(text, now)[0].symbol
                &&& ticker_rows(text, now)[i].cached_at_ms == now
            },
{
}

fn decode_item_value(v: &JsonValue) -> (r: Option<TickerItem>)
    ensures
        match r {
            Some(t) => decode_item(*v) == Some(t@),
            None => decode_item(*v).is_none(),
        },
{
    if !is_struct_shaped(v, 10) {
        return None;
    }
    let last_price = match decode_text_field(v, 0, "lastPrice") {
        Ok(t) => t,
        Err(_) => return None,
    };
    let bid1_price = match decode_text_field(v, 1, "bid1Price") {
        Ok(t) => t,
        Err(_) => return None,
    };
    let ask1_price = match decode_text_field(v, 2, "ask1Price") {
        Ok(t) => t,
        Err(_) => return None,
    };
    let volume_24h = match decode_text_field(v, 3, "volume24h") {
        Ok(t) => t,
        Err(_) => return None,
    };
    let turnover_24h = match decode_text_field(v, 4, "turnover24h") {
        Ok(t) => t,
        Err(_) => return None,
    };
    let mark_price = match decode_text_field(v, 5, "markPrice") {
        Ok(t) => t,
        Err(_) => return None,
    };
    let index_price = match decode_text_field(v, 6, "indexPrice") {
        Ok(t) => t,
        Err(_) => return None,
    };
    let open_interest = match decode_text_field(v, 7, "openInterest") {
        Ok(t) => t,
        Err(_) => return None,
    };
    let funding_rate = match decode_text_field(v, 8, "fundingRate") {
        Ok(t) => t,
        Err(_) => return None,
    };
    let next_funding_time = match decode_text_field(v, 9, "nextFundingTime") {
        Ok(t) => t,
        Err(_) => return None,
    };
    Some(
        TickerItem {
            last_price,
            bid1_price,
            ask1_price,
            volume_24h,
            turnover_24h,
            mark_price,
            index_price,
            open_interest,
            funding_rate,
            next_funding_time,
        },
    )
}

proof fn lemma_items_fail(items: Seq<JsonValue>, i: int)
    requires
        0 <= i < items.len(),
        decode_item(items[i]).is_none(),
    ensures
        decode_items(items).is_none(),
    decreases items.len(),
{
    if i < items.len() - 1 {
        lemma_items_fail(items.drop_last(), i);
    }
}

/// The rows of `items`, each keyed by `symbol` and stamped with `ts_ms` and
/// `now`; `None` when a row does not read as a ticker row.
fn decode_rows(items: &Vec<JsonValue>, symbol: &String, ts_ms: i64, now: i64) -> (r: Option<
    Vec<CachedTicker>,
>)
    ensures
        match r {
            Some(rows) => match decode_items(items@) {
                Some(data) => rows_view(rows@) == data.map_values(
                    |item: TickerItemView| cached_row(symbol@, item, ts_ms, now),
                ),
                None => false,
            },
            None => decode_items(items@).is_none(),
        },
{
    let mut rows: Vec<CachedTicker> = Vec::new();
    let ghost mut data: Seq<TickerItemView> = Seq::empty();
    let n = items.len();
    let mut i: usize = 0;
    while i < n
        invariant
            n == items@.len(),
            i <= n,
            decode_items(items@.subrange(0, i as int)) == Some(data),
            rows_view(rows@) == data.map_values(
                |item: TickerItemView| cached_row(symbol@, item, ts_ms, now),
            ),
        decreases n - i,
    {
        let ghost next = items@.subrange(0, i + 1);
        assert(next.drop_last() =~= items@.subrange(0, i as int));
        assert(next.last() == items@[i as int]);
        match decode_item_value(&items[i]) {
            None => {
                proof {
                    lemma_items_fail(items@, i as int);
                }
                return None;
            },
            Some(item) => {
                let ghost iv = item@;
                let ghost before = rows_view(rows@);
                let key = symbol.clone();
                assert(key@ == symbol@);
                let row = CachedTicker { symbol: key, item, ts_ms, cached_at_ms: now };
                assert(row@ == cached_row(symbol@, iv, ts_ms, now));
                rows.push(row);
                assert(rows_view(rows@) =~= before.push(cached_row(symbol@, iv, ts_ms, now)));
                proof {
                    let f = |item: TickerItemView| cached_row(symbol@, item, ts_ms, now);
                    assert(data.push(iv).map_values(f) =~= data.map_values(f).push(f(iv)));
                    data = data.push(iv);
                }
            },
        }
        i = i + 1;
    }
    assert(items@.subrange(0, n as int) =~= items@);
    Some(rows)
}

/// The rows of a ticker frame received at `now`.
pub fn parse_ticker_update_at(text: &str, now: i64) -> (r: Vec<CachedTicker>)
    ensures
        rows_view(r@) == ticker_rows(text@, now),
{
    let empty: Vec<CachedTicker> = Vec::new();
    assert(rows_view(empty@) =~= Seq::<CachedTickerView>::empty());
    let doc = match parse_json(text) {
        Some(d) => d,
        None => return empty,
    };
    if !is_struct_shaped(&doc, 3) {
        return empty;
    }
    let arg = match get_field(&doc, 0, "arg") {
        Some(a) => a,
        None => return empty,
    };
    let items = match get_field(&doc, 1, "data") {
        None => None,
        Some(JsonValue::Array(items)) => Some(items),
        Some(_) => return empty,
    };
    let ts = match decode_optional_i64_field(&doc, 2, "ts") {
        Ok(t) => t,
        Err(_) => return empty,
    };
    if !is_struct_shaped(arg, 2) {
        return empty;
    }
    let topic = match get_field(arg, 0, "topic") {
        Some(JsonValue::Str(t)) => t,
        _ => return empty,
    };
    let symbol = match decode_text_field(arg, 1, "symbol") {
        Ok(s) => s,
        Err(_) => return empty,
    };
    let ts_ms = match ts {
        Some(t) => t,
        None => now,
    };
    let rows = match items {
        None => {
            let none: Vec<CachedTicker> = Vec::new();
            assert(rows_view(none@) =~= Seq::<TickerItemView>::empty().map_values(
                |item: TickerItemView| cached_row(symbol@, item, ts_ms, now),
            ));
            none
        },
        Some(items) => match decode_rows(items, &symbol, ts_ms, now) {
            Some(rows) => rows,
            None => return empty,
        },
    };
    if !str_eq(topic.as_str(), TOPIC) || symbol.unicode_len() == 0 {
        return empty;
    }
    rows
}

/// The rows of a ticker frame, stamped with the time it is read.
pub fn parse_ticker_update(text: &str) -> (r: Vec<CachedTicker>)
    ensures
        exists|now: i64| rows_view(r@) == #[trigger] ticker_rows(text@, now),
{
    let now = stamp_now();
    parse_ticker_update_at(text, now)
}

} // verus!
