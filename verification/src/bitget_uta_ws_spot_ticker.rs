//! Bitget V3 / UTA spot ticker frames and channel requests, kept apart from
//! the futures ticker so that spot and futures rows of one pair never mix.

use vstd::prelude::*;
use crate::bitget_uta_config::{
    arg_texts, category_ws_inst_type, channel_json, channel_request, BitgetUtaCategory,
    BitgetUtaWsArgs,
};
use crate::clock::stamp_now;
use crate::json::{
    decode_optional_i64_field, decode_text_field, field, get_field, is_struct_shaped,
    json_document, list_or_default, optional_i64, parse_json, struct_shaped, text_or_default,
    JsonValue,
};
use crate::symbols::{compact_pair, compact_pair_symbol, views};
use crate::text::{
    blank, is_blank, lemma_upper_idempotent, parse_i64, parse_i64_text, str_eq, to_upper, upper,
};

verus! {

pub const EXCHANGE: &'static str = "bitget";
pub const TOPIC: &'static str = "ticker";
pub const SPOT_INST_TYPE: &'static str = "spot";

/// One row of a spot ticker frame, as decimal texts.
#[derive(Debug)]
pub struct SpotTickerItem {
    pub symbol: String,
    pub last_price: String,
    pub bid1_price: String,
    pub ask1_price: String,
    pub bid1_size: String,
    pub ask1_size: String,
    pub volume_24h: String,
    pub turnover_24h: String,
    pub ts: String,
}

pub ghost struct SpotItemView {
    pub symbol: Seq<char>,
    pub last_price: Seq<char>,
    pub bid1_price: Seq<char>,
    pub ask1_price: Seq<char>,
    pub bid1_size: Seq<char>,
    pub ask1_size: Seq<char>,
    pub volume_24h: Seq<char>,
    pub turnover_24h: Seq<char>,
    pub ts: Seq<char>,
}

impl View for SpotTickerItem {
    type V = SpotItemView;

    open spec fn view(&self) -> SpotItemView {
        SpotItemView {
            symbol: self.symbol@,
            last_price: self.last_price@,
            bid1_price: self.bid1_price@,
            ask1_price: self.ask1_price@,
            bid1_size: self.bid1_size@,
            ask1_size: self.ask1_size@,
            volume_24h: self.volume_24h@,
            turnover_24h: self.turnover_24h@,
            ts: self.ts@,
        }
    }
}

/// A row with the time it arrived and the time the venue stamped it.
#[derive(Debug)]
pub struct CachedTicker {
    pub item: SpotTickerItem,
    pub cached_at_ms: i64,
    pub data_timestamp_ms: i64,
}

pub ghost struct CachedSpotView {
    pub item: SpotItemView,
    pub cached_at_ms: i64,
    pub data_timestamp_ms: i64,
}

impl View for CachedTicker {
    type V = CachedSpotView;

    open spec fn view(&self) -> CachedSpotView {
        CachedSpotView {
            item: self.item@,
            cached_at_ms: self.cached_at_ms,
            data_timestamp_ms: self.data_timestamp_ms,
        }
    }
}

pub open spec fn rows_view(rows: Seq<CachedTicker>) -> Seq<CachedSpotView> {
    rows.map_values(|r: CachedTicker| r@)
}

// ---------------------------------------------------------------------------
// Channel requests
// ---------------------------------------------------------------------------

pub open spec fn all_pairs(list: Seq<Seq<char>>) -> Option<Seq<Seq<char>>>
    decreases list.len(),
{
    if list.len() == 0 {
        Some(Seq::empty())
    } else {
        match (all_pairs(list.drop_last()), compact_pair(list.last())) {
            (Some(prev), Some(s)) => Some(prev.push(s)),
            _ => None,
        }
    }
}

/// The compact pairs of a selection: nothing for an empty selection or when
/// any entry is blank.
pub open spec fn stream_symbols_of(list: Seq<Seq<char>>) -> Option<Seq<Seq<char>>> {
    if list.len() == 0 {
        None
    } else {
        all_pairs(list)
    }
}

proof fn lemma_pairs_fail(list: Seq<Seq<char>>, i: int)
    requires
        0 <= i < list.len(),
        compact_pair(list[i]).is_none(),
    ensures
        all_pairs(list).is_none(),
    decreases list.len(),
{
    if i < list.len() - 1 {
        lemma_pairs_fail(list.drop_last(), i);
    }
}

pub fn stream_symbols(symbols: &[String]) -> (r: Option<Vec<String>>)
    ensures
        match r {
            Some(out) => stream_symbols_of(views(symbols@)) == Some(views(out@)),
            None => stream_symbols_of(views(symbols@)).is_none(),
        },
{
    let ghost list = views(symbols@);
    let n = symbols.len();
    if n == 0 {
        return None;
    }
    let mut out: Vec<String> = Vec::new();
    let mut i: usize = 0;
    while i < n
        invariant
            n == symbols@.len(),
            list == views(symbols@),
            i <= n,
            all_pairs(list.subrange(0, i as int)) == Some(views(out@)),
        decreases n - i,
    {
        let ghost next = list.subrange(0, i + 1);
        assert(next.drop_last() =~= list.subrange(0, i as int));
        assert(next.last() == symbols@[i as int]@);
        match compact_pair_symbol(symbols[i].as_str()) {
            Some(s) => {
                out.push(s);
                assert(views(out@).drop_last() =~= views(out@.drop_last()));
            },
            None => {
                proof {
                    lemma_pairs_fail(list, i as int);
                }
                return None;
            },
        }
        i = i + 1;
    }
    assert(list.subrange(0, n as int) =~= list);
    Some(out)
}

/// The `(instType, topic, symbol)` of the spot ticker channel of each pair.
pub open spec fn spot_ticker_args(symbols: Seq<Seq<char>>) -> Seq<
    (Seq<char>, Seq<char>, Seq<char>),
> {
    symbols.map_values(
        |s: Seq<char>| (category_ws_inst_type(BitgetUtaCategory::Spot), TOPIC@, upper(s)),
    )
}

/// A `subscribe` / `unsubscribe` request for the spot ticker channel of each
/// pair.
pub fn channel_payload(op: &str, symbols: &[String]) -> (r: String)
    ensures
        r@ == channel_json(op@, spot_ticker_args(views(symbols@))),
{
    let ghost list = views(symbols@);
    let n = symbols.len();
    let mut args: Vec<BitgetUtaWsArgs> = Vec::new();
    let mut i: usize = 0;
    while i < n
        invariant
            n == symbols@.len(),
            list == views(symbols@),
            i <= n,
            arg_texts(args@) == spot_ticker_args(list.subrange(0, i as int)),
        decreases n - i,
    {
        let ghost before = arg_texts(args@);
        let arg = BitgetUtaWsArgs::new(BitgetUtaCategory::Spot, TOPIC, symbols[i].as_str());
        args.push(arg);
        assert(list.subrange(0, i + 1) =~= list.subrange(0, i as int).push(symbols@[i as int]@));
        assert(arg_texts(args@) =~= before.push(
            (
                category_ws_inst_type(BitgetUtaCategory::Spot),
                TOPIC@,
                upper(symbols@[i as int]@),
            ),
        ));
        assert(arg_texts(args@) =~= spot_ticker_args(list.subrange(0, i + 1)));
        i = i + 1;
    }
    assert(list.subrange(0, n as int) =~= list);
    channel_request(op, &args)
}

// ---------------------------------------------------------------------------
// Frames
// ---------------------------------------------------------------------------

pub open spec fn decode_item(v: JsonValue) -> Option<SpotItemView> {
    if !struct_shaped(v, 9) {
        None
    } else {
        let t = |i: nat, k: Seq<char>| text_or_default(field(v, i, k));
        match (
            (t(0, "symbol"@), t(1, "lastPrice"@), t(2, "bid1Price"@), t(3, "ask1Price"@)),
            (t(4, "bid1Size"@), t(5, "ask1Size"@), t(6, "volume24h"@)),
            (t(7, "turnover24h"@), t(8, "ts"@)),
        ) {
            (
                (Ok(symbol), Ok(last), Ok(bid), Ok(ask)),
                (Ok(bid_size), Ok(ask_size), Ok(vol)),
                (Ok(turnover), Ok(ts)),
            ) => Some(
                SpotItemView {
                    symbol,
                    last_price: last,
                    bid1_price: bid,
                    ask1_price: ask,
                    bid1_size: bid_size,
                    ask1_size: ask_size,
                    volume_24h: vol,
                    turnover_24h: turnover,
                    ts,
                },
            ),
            _ => None,
        }
    }
}

pub open spec fn decode_items(items: Seq<JsonValue>) -> Option<Seq<SpotItemView>>
    decreases items.len(),
{
    if items.len() == 0 {
        Some(Seq::empty())
    } else {
        match (decode_items(items.drop_last()), decode_item(items.last())) {
            (Some(prev), Some(item)) => Some(prev.push(item)),
            _ => None,
        }
    }
}

/// The `arg` of a frame: `(instType, topic, symbol)`, each defaulting to
/// empty.
pub open spec fn decode_arg(v: JsonValue) -> Option<(Seq<char>, Seq<char>, Seq<char>)> {
    if !struct_shaped(v, 3) {
        None
    } else {
        match (
            text_or_default(field(v, 0, "instType"@)),
            text_or_default(field(v, 1, "topic"@)),
            text_or_default(field(v, 2, "symbol"@)),
        ) {
            (Ok(i), Ok(t), Ok(s)) => Some((i, t, s)),
            _ => None,
        }
    }
}

/// An optional `arg`: absent or `null` is none.
pub open spec fn optional_arg(x: Option<JsonValue>) -> Option<Option<(Seq<char>, Seq<char>, Seq<char>)>> {
    match x {
        None => Some(None),
        Some(JsonValue::Null) => Some(None),
        Some(v) => match decode_arg(v) {
            Some(a) => Some(Some(a)),
            None => None,
        },
    }
}

pub ghost struct EnvelopeView {
    pub arg: Option<(Seq<char>, Seq<char>, Seq<char>)>,
    pub data: Seq<SpotItemView>,
    pub ts: Option<i64>,
}

pub open spec fn decode_envelope(doc: JsonValue) -> Option<EnvelopeView> {
    if !struct_shaped(doc, 3) {
        None
    } else {
        match (
            optional_arg(field(doc, 0, "arg"@)),
            list_or_default(field(doc, 1, "data"@)),
            optional_i64(field(doc, 2, "ts"@)),
        ) {
            (Some(arg), Some(items), Ok(ts)) => match decode_items(items) {
                Some(data) => Some(EnvelopeView { arg, data, ts }),
                None => None,
            },
            _ => None,
        }
    }
}

/// The symbol a row is keyed by: its own when not blank, else the
/// envelope's; upper-cased; none when both are blank.
pub open spec fn row_symbol(item_symbol: Seq<char>, arg_symbol: Seq<char>) -> Option<Seq<char>> {
    let s = if is_blank(item_symbol) {
        arg_symbol
    } else {
        item_symbol
    };
    if is_blank(s) {
        None
    } else {
        Some(upper(s))
    }
}

/// A row received at `now`: its time is its own `ts` when that reads as an
/// integer, else the frame's.
pub open spec fn row_of(item: SpotItemView, arg_symbol: Seq<char>, frame_ts: i64, now: i64) -> Option<
    CachedSpotView,
> {
    match row_symbol(item.symbol, arg_symbol) {
        Some(symbol) => Some(
            CachedSpotView {
                item: SpotItemView {
                    symbol,
                    last_price: item.last_price,
                    bid1_price: item.bid1_price,
                    ask1_price: item.ask1_price,
                    bid1_size: item.bid1_size,
                    ask1_size: item.ask1_size,
                    volume_24h: item.volume_24h,
                    turnover_24h: item.turnover_24h,
                    ts: item.ts,
                },
                cached_at_ms: now,
                data_timestamp_ms: match parse_i64_text(item.ts) {
                    Some(t) => t,
                    None => frame_ts,
                },
            },
        ),
        None => None,
    }
}

/// The rows that can be keyed, in order.
pub open spec fn spot_rows(data: Seq<SpotItemView>, arg_symbol: Seq<char>, frame_ts: i64, now: i64) -> Seq<
    CachedSpotView,
>
    decreases data.len(),
{
    if data.len() == 0 {
        Seq::empty()
    } else {
        let prev = spot_rows(data.drop_last(), arg_symbol, frame_ts, now);
        match row_of(data.last(), arg_symbol, frame_ts, now) {
            Some(row) => prev.push(row),
            None => prev,
        }
    }
}

/// The rows of a spot ticker frame received at `now`. Only frames whose
/// `arg` names the `ticker` topic of the `spot` category give rows.
pub open spec fn ticker_rows(text: Seq<char>, now: i64) -> Seq<CachedSpotView> {
    match json_document(text) {
        None => Seq::empty(),
        Some(doc) => match decode_envelope(doc) {
            Some(EnvelopeView { arg: Some((inst_type, topic, symbol)), data, ts }) => if topic
                == TOPIC@ && inst_type == SPOT_INST_TYPE@ {
                let frame_ts = match ts {
                    Some(t) => t,
                    None => now,
                };
                spot_rows(data, symbol, frame_ts, now)
            } else {
                Seq::empty()
            },
            _ => Seq::empty(),
        },
    }
}

/// A row that can be keyed.
pub open spec fn keyed_row(row: CachedSpotView, now: i64) -> bool {
    &&& !is_blank(row.item.symbol)
    &&& upper(row.item.symbol) == row.item.symbol
    &&& row.cached_at_ms == now
}

proof fn lemma_spot_rows_keyed(data: Seq<SpotItemView>, arg_symbol: Seq<char>, frame_ts: i64, now: i64)
    ensures
        forall|i: int|
            0 <= i < spot_rows(data, arg_symbol, frame_ts, now).len() ==> keyed_row(
                #[trigger] spot_rows(data, arg_symbol, frame_ts, now)[i],
                now,
            ),
    decreases data.len(),
{
    if data.len() > 0 {
        lemma_spot_rows_keyed(data.drop_last(), arg_symbol, frame_ts, now);
        let item = data.last();
        let s = if is_blank(item.symbol) {
            arg_symbol
        } else {
            item.symbol
        };
        lemma_upper_idempotent(s);
        let prev = spot_rows(data.drop_last(), arg_symbol, frame_ts, now);
        let rows = spot_rows(data, arg_symbol, frame_ts, now);
        match row_of(item, arg_symbol, frame_ts, now) {
            Some(row) => {
                assert(row.item.symbol == upper(s));
                assert(keyed_row(row, now));
                assert(rows == prev.push(row));
                assert forall|i: int| 0 <= i < rows.len() implies keyed_row(
                    #[trigger] rows[i],
                    now,
                ) by {
                    if i < prev.len() {
                        assert(rows[i] == prev[i]);
                    }
                }
            },
            None => {
                assert(rows == prev);
            },
        }
    }
}

/// Every row of a spot ticker frame is keyed by a non-blank, upper-case
/// pair and carries the time the frame arrived.
pub proof fn spot_rows_are_keyed(text: Seq<char>, now: i64)
    ensures
        forall|i: int|
            0 <= i < ticker_rows(text, now).len() ==> keyed_row(
                #[trigger] ticker_rows(text, now)[i],
                now,
            ),
{
    if let Some(doc) = json_document(text) {
        if let Some(env) = decode_envelope(doc) {
            if let Some((inst_type, topic, symbol)) = env.arg {
                let frame_ts = match env.ts {
                    Some(t) => t,
                    None => now,
                };
                lemma_spot_rows_keyed(env.data, symbol, frame_ts, now);
            }
        }
    }
}

fn decode_item_value(v: &JsonValue) -> (r: Option<SpotTickerItem>)
    ensures
        match r {
            Some(t) => decode_item(*v) == Some(t@),
            None => decode_item(*v).is_none(),
        },
{
    if !is_struct_shaped(v, 9) {
        return None;
    }
    let symbol = match decode_text_field(v, 0, "symbol") {
        Ok(t) => t,
        Err(_) => return None,
    };
    let last_price = match decode_text_field(v, 1, "lastPrice") {
        Ok(t) => t,
        Err(_) => return None,
    };
    let bid1_price = match decode_text_field(v, 2, "bid1Price") {
        Ok(t) => t,
        Err(_) => return None,
    };
    let ask1_price = match decode_text_field(v, 3, "ask1Price") {
        Ok(t) => t,
        Err(_) => return None,
    };
    let bid1_size = match decode_text_field(v, 4, "bid1Size") {
        Ok(t) => t,
        Err(_) => return None,
    };
    let ask1_size = match decode_text_field(v, 5, "ask1Size") {
        Ok(t) => t,
        Err(_) => return None,
    };
    let volume_24h = match decode_text_field(v, 6, "volume24h") {
        Ok(t) => t,
        Err(_) => return None,
    };
    let turnover_24h = match decode_text_field(v, 7, "turnover24h") {
        Ok(t) => t,
        Err(_) => return None,
    };
    let ts = match decode_text_field(v, 8, "ts") {
        Ok(t) => t,
        Err(_) => return None,
    };
    Some(
        SpotTickerItem {
            symbol,
            last_price,
            bid1_price,
            ask1_price,
            bid1_size,
            ask1_size,
            volume_24h,
            turnover_24h,
            ts,
        },
    )
}

/// The symbol a row is keyed by.
pub fn symbol_from_row(item_symbol: &str, arg_symbol: &str) -> (r: Option<String>)
    ensures
        match r {
            Some(s) => row_symbol(item_symbol@, arg_symbol@) == Some(s@),
            None => row_symbol(item_symbol@, arg_symbol@).is_none(),
        },
{
    let s = if blank(item_symbol) {
        arg_symbol
    } else {
        item_symbol
    };
    if blank(s) {
        None
    } else {
        Some(to_upper(s))
    }
}

/// The 24h volume in quote terms when the venue sent it, else in base terms.
pub fn quote_volume(item: &SpotTickerItem) -> (r: &str)
    ensures
        r@ == if is_blank(item.turnover_24h@) {
            item.volume_24h@
        } else {
            item.turnover_24h@
        },
{
    if blank(item.turnover_24h.as_str()) {
        item.volume_24h.as_str()
    } else {
        item.turnover_24h.as_str()
    }
}

proof fn lemma_items_fail(items: Seq<JsonValue>, i: int)
    requires
        0 <= i < items.len(),
        decode_item(items[i]).is_none(),
    ensures
        decode_items(items).is_none(),
    decreases items.len(),
{
    if i < items.len() - 1 {
        lemma_items_fail(items.drop_last(), i);
    }
}

fn decode_rows(items: &Vec<JsonValue>, arg_symbol: &str, frame_ts: i64, now: i64) -> (r: Option<
    Vec<CachedTicker>,
>)
    ensures
        match r {
            Some(rows) => match decode_items(items@) {
                Some(data) => rows_view(rows@) == spot_rows(data, arg_symbol@, frame_ts, now),
                None => false,
            },
            None => decode_items(items@).is_none(),
        },
{
    let mut rows: Vec<CachedTicker> = Vec::new();
    let ghost mut data: Seq<SpotItemView> = Seq::empty();
    let n = items.len();
    let mut i: usize = 0;
    while i < n
        invariant
            n == items@.len(),
            i <= n,
            decode_items(items@.subrange(0, i as int)) == Some(data),
            rows_view(rows@) == spot_rows(data, arg_symbol@, frame_ts, now),
        decreases n - i,
    {
        let ghost next = items@.subrange(0, i + 1);
        assert(next.drop_last() =~= items@.subrange(0, i as int));
        assert(next.last() == items@[i as int]);
        match decode_item_value(&items[i]) {
            None => {
                proof {
                    lemma_items_fail(items@, i as int);
                }
                return None;
            },
            Some(item) => {
                let ghost iv = item@;
                let ghost before = rows_view(rows@);
                proof {
                    assert(data.push(iv).drop_last() =~= data);
                    assert(data.push(iv).last() == iv);
                }
                match symbol_from_row(item.symbol.as_str(), arg_symbol) {
                    Some(symbol) => {
                        let data_timestamp_ms = match parse_i64(item.ts.as_str()) {
                            Some(t) => t,
                            None => frame_ts,
                        };
                        let mut keyed = item;
                        keyed.symbol = symbol;
                        let row = CachedTicker { item: keyed, cached_at_ms: now, data_timestamp_ms };
                        assert(Some(row@) == row_of(iv, arg_symbol@, frame_ts, now));
                        rows.push(row);
                        assert(rows_view(rows@) =~= before.push(row@));
                    },
                    None => {},
                }
                proof {
                    data = data.push(iv);
                }
            },
        }
        i = i + 1;
    }
    assert(items@.subrange(0, n as int) =~= items@);
    Some(rows)
}

/// The rows of a spot ticker frame received at `now`.
pub fn parse_ticker_update_at(text: &str, now: i64) -> (r: Vec<CachedTicker>)
    ensures
        rows_view(r@) == ticker_rows(text@, now),
{
    let empty: Vec<CachedTicker> = Vec::new();
    assert(rows_view(empty@) =~= Seq::<CachedSpotView>::empty());
    let doc = match parse_json(text) {
        Some(d) => d,
        None => return empty,
    };
    if !is_struct_shaped(&doc, 3) {
        return empty;
    }
    let arg = match get_field(&doc, 0, "arg") {
        None => return empty,
        Some(JsonValue::Null) => return empty,
        Some(a) => a,
    };
    let items = match get_field(&doc, 1, "data") {
        None => None,
        Some(JsonValue::Array(items)) => Some(items),
        Some(_) => return empty,
    };
    let ts = match decode_optional_i64_field(&doc, 2, "ts") {
        Ok(t) => t,
        Err(_) => return empty,
    };
    if !is_struct_shaped(arg, 3) {
        return empty;
    }
    let inst_type = match decode_text_field(arg, 0, "instType") {
        Ok(t) => t,
        Err(_) => return empty,
    };
    let topic = match decode_text_field(arg, 1, "topic") {
        Ok(t) => t,
        Err(_) => return empty,
    };
    let symbol = match decode_text_field(arg, 2, "symbol") {
        Ok(t) => t,
        Err(_) => return empty,
    };
    let frame_ts = match ts {
        Some(t) => t,
        None => now,
    };
    let rows = match items {
        None => {
            let none: Vec<CachedTicker> = Vec::new();
            assert(rows_view(none@) =~= spot_rows(Seq::empty(), symbol@, frame_ts, now));
            none
        },
        Some(items) => match decode_rows(items, symbol.as_str(), frame_ts, now) {
            Some(rows) => rows,
            None => return empty,
        },
    };
    if !str_eq(topic.as_str(), TOPIC) || !str_eq(inst_type.as_str(), SPOT_INST_TYPE) {
        return empty;
    }
    rows
}

/// The rows of a spot ticker frame, stamped with the time it is read.
pub fn parse_ticker_update(text: &str) -> (r: Vec<CachedTicker>)
    ensures
        exists|now: i64| rows_view(r@) == #[trigger] ticker_rows(text@, now),
{
    let now = stamp_now();
    parse_ticker_update_at(text, now)
}

} // verus!
