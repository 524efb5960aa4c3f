//! Bitget V3 / UTA public market rows: tickers, current funding rates and
//! instrument funding intervals, read from the REST list responses with
//! their numbers kept as the venue's text; and the next funding boundary.

use vstd::prelude::*;
use crate::bitget_market_data::{is_bitget_funding_interval, valid_bitget_funding_interval};
use crate::bitget_response::{ensure_ok_result, list_envelope, parse_list_envelope};
use crate::error::{ErrorView, ExchangeError};
use crate::json::{
    decode_required_text, decode_text_or_default, field, get_field, is_struct_shaped,
    json_document, required_text, struct_shaped, text_or_default, JsonValue,
};
use crate::text::{parse_i64, parse_i64_text, parse_u64, parse_u64_text};

verus! {

/// A text field that may also be `null`: absent or `null` is empty.
pub open spec fn nullable_text(x: Option<JsonValue>) -> Result<Seq<char>, ()> {
    match x {
        None => Ok(Seq::empty()),
        Some(JsonValue::Null) => Ok(Seq::empty()),
        Some(JsonValue::Str(s)) => Ok(s@),
        Some(_) => Err(()),
    }
}

fn nullable_field(v: &JsonValue, index: usize, key: &str) -> (r: Result<String, ()>)
    ensures
        match r {
            Ok(s) => nullable_text(field(*v, index as nat, key@)) == Ok::<Seq<char>, ()>(s@),
            Err(_) => nullable_text(field(*v, index as nat, key@)).is_err(),
        },
{
    match get_field(v, index, key) {
        None => Ok(String::new()),
        Some(JsonValue::Null) => Ok(String::new()),
        Some(JsonValue::Str(s)) => Ok(s.clone()),
        Some(_) => Err(()),
    }
}

fn text_field(v: &JsonValue, index: usize, key: &str) -> (r: Result<String, ()>)
    ensures
        match r {
            Ok(s) => text_or_default(field(*v, index as nat, key@)) == Ok::<Seq<char>, ()>(s@),
            Err(_) => text_or_default(field(*v, index as nat, key@)).is_err(),
        },
{
    decode_text_or_default(get_field(v, index, key))
}

fn symbol_field(v: &JsonValue) -> (r: Result<String, ()>)
    ensures
        match r {
            Ok(s) => required_text(field(*v, 0, "symbol"@)) == Ok::<Seq<char>, ()>(s@),
            Err(_) => required_text(field(*v, 0, "symbol"@)).is_err(),
        },
{
    decode_required_text(get_field(v, 0, "symbol"))
}

/// A ticker row. Every field but the symbol may be absent or `null`, which
/// reads as empty text.
#[derive(Debug)]
pub struct UtaTickerItem {
    pub symbol: String,
    pub last_price: String,
    pub bid1_price: String,
    pub ask1_price: String,
    pub bid1_size: String,
    pub ask1_size: String,
    pub volume_24h: String,
    /// The 24-hour quote volume, which the venue names `turnover24h`.
    pub quote_volume_24h: String,
    pub mark_price: String,
    pub index_price: String,
    pub open_interest: String,
    pub funding_rate: String,
    pub next_funding_time: String,
    /// The server time of the row in milliseconds, as text.
    pub ts: String,
}

/// The names of the ticker row's fields after the symbol, in order.
pub open spec fn ticker_keys() -> Seq<Seq<char>> {
    seq![
        "lastPrice"@,
        "bid1Price"@,
        "ask1Price"@,
        "bid1Size"@,
        "ask1Size"@,
        "volume24h"@,
        "turnover24h"@,
        "markPrice"@,
        "indexPrice"@,
        "openInterest"@,
        "fundingRate"@,
        "nextFundingTime"@,
        "ts"@,
    ]
}

/// The fields of a ticker row, symbol first.
pub open spec fn ticker_fields(t: UtaTickerItem) -> Seq<Seq<char>> {
    seq![
        t.symbol@,
        t.last_price@,
        t.bid1_price@,
        t.ask1_price@,
        t.bid1_size@,
        t.ask1_size@,
        t.volume_24h@,
        t.quote_volume_24h@,
        t.mark_price@,
        t.index_price@,
        t.open_interest@,
        t.funding_rate@,
        t.next_funding_time@,
        t.ts@,
    ]
}

/// The fields a ticker row reads from a JSON value, symbol first; `None`
/// when the value is not such a row.
pub open spec fn ticker_row_of(v: JsonValue) -> Option<Seq<Seq<char>>> {
    let symbol = required_text(field(v, 0, "symbol"@));
    if struct_shaped(v, 14) && symbol is Ok && (forall|i: int|
        0 <= i < 13 ==> nullable_text(field(v, (i + 1) as nat, #[trigger] ticker_keys()[i])) is Ok) {
        Some(
            seq![symbol->Ok_0] + Seq::new(
                13,
                |i: int| nullable_text(field(v, (i + 1) as nat, ticker_keys()[i]))->Ok_0,
            ),
        )
    } else {
        None
    }
}

/// Reads a ticker row.
pub fn decode_ticker_item(v: &JsonValue) -> (r: Option<UtaTickerItem>)
    ensures
        match r {
            Some(t) => ticker_row_of(*v) == Some(ticker_fields(t)),
            None => ticker_row_of(*v).is_none(),
        },
{
    proof {
        reveal_strlit("lastPrice");
    }
    if !is_struct_shaped(v, 14) {
        return None;
    }
    let symbol = match symbol_field(v) {
        Ok(s) => s,
        Err(_) => {
            return None;
        },
    };
    let keys = [
        "lastPrice",
        "bid1Price",
        "ask1Price",
        "bid1Size",
        "ask1Size",
        "volume24h",
        "turnover24h",
        "markPrice",
        "indexPrice",
        "openInterest",
        "fundingRate",
        "nextFundingTime",
        "ts",
    ];
    assert(keys@.map_values(|k: &str| k@) =~= ticker_keys());
    let mut values: Vec<String> = Vec::new();
    let mut i: usize = 0;
    while i < 13
        invariant
            keys@.len() == 13,
            keys@.map_values(|k: &str| k@) == ticker_keys(),
            i <= 13,
            values@.len() == i,
            forall|k: int|
                0 <= k < i ==> nullable_text(field(*v, (k + 1) as nat, ticker_keys()[k]))
                    == Ok::<Seq<char>, ()>(#[trigger] values@[k]@),
        decreases 13 - i,
    {
        assert(keys@.map_values(|k: &str| k@)[i as int] == keys@[i as int]@);
        match nullable_field(v, i + 1, keys[i]) {
            Ok(s) => values.push(s),
            Err(_) => {
                assert(!(nullable_text(field(*v, (i + 1) as nat, ticker_keys()[i as int])) is Ok));
                return None;
            },
        }
        i = i + 1;
    }
    let item = UtaTickerItem {
        symbol,
        last_price: values[0].clone(),
        bid1_price: values[1].clone(),
        ask1_price: values[2].clone(),
        bid1_size: values[3].clone(),
        ask1_size: values[4].clone(),
        volume_24h: values[5].clone(),
        quote_volume_24h: values[6].clone(),
        mark_price: values[7].clone(),
        index_price: values[8].clone(),
        open_interest: values[9].clone(),
        funding_rate: values[10].clone(),
        next_funding_time: values[11].clone(),
        ts: values[12].clone(),
    };
    proof {
        assert forall|k: int| 0 <= k < 13 implies nullable_text(
            field(*v, (k + 1) as nat, #[trigger] ticker_keys()[k]),
        ) is Ok by {
            assert(nullable_text(field(*v, (k + 1) as nat, ticker_keys()[k])) == Ok::<
                Seq<char>,
                (),
            >(values@[k]@));
        }
        assert(ticker_row_of(*v) is Some);
        let row = ticker_row_of(*v)->Some_0;
        assert forall|k: int| 0 <= k < 14 implies row[k] == ticker_fields(item)[k] by {
            if k > 0 {
                assert(row[k] == nullable_text(field(*v, k as nat, ticker_keys()[k - 1]))->Ok_0);
                assert(values@[k - 1]@ == row[k]);
            }
        }
        assert(row =~= ticker_fields(item));
    }
    Some(item)
}

/// A current funding rate row: the symbol, and the rate, the next update
/// time and the interval in hours, each as text that defaults to empty.
#[derive(Debug)]
pub struct UtaFundingRateItem {
    pub symbol: String,
    pub funding_rate: String,
    pub next_update: String,
    pub funding_rate_interval: String,
}

/// The fields of a funding row, symbol first.
pub open spec fn funding_fields(f: UtaFundingRateItem) -> Seq<Seq<char>> {
    seq![f.symbol@, f.funding_rate@, f.next_update@, f.funding_rate_interval@]
}

/// The fields a funding row reads from a JSON value, symbol first.
pub open spec fn funding_row_of(v: JsonValue) -> Option<Seq<Seq<char>>> {
    let symbol = required_text(field(v, 0, "symbol"@));
    let rate = text_or_default(field(v, 1, "fundingRate"@));
    let next = text_or_default(field(v, 2, "nextUpdate"@));
    let interval = text_or_default(field(v, 3, "fundingRateInterval"@));
    if struct_shaped(v, 4) && symbol is Ok && rate is Ok && next is Ok && interval is Ok {
        Some(seq![symbol->Ok_0, rate->Ok_0, next->Ok_0, interval->Ok_0])
    } else {
        None
    }
}

/// Reads a current funding rate row.
pub fn decode_funding_item(v: &JsonValue) -> (r: Option<UtaFundingRateItem>)
    ensures
        match r {
            Some(f) => funding_row_of(*v) == Some(funding_fields(f)),
            None => funding_row_of(*v).is_none(),
        },
{
    if !is_struct_shaped(v, 4) {
        return None;
    }
    let symbol = match symbol_field(v) {
        Ok(s) => s,
        Err(_) => {
            return None;
        },
    };
    let funding_rate = match text_field(v, 1, "fundingRate") {
        Ok(s) => s,
        Err(_) => {
            return None;
        },
    };
    let next_update = match text_field(v, 2, "nextUpdate") {
        Ok(s) => s,
        Err(_) => {
            return None;
        },
    };
    let funding_rate_interval = match text_field(v, 3, "fundingRateInterval") {
        Ok(s) => s,
        Err(_) => {
            return None;
        },
    };
    Some(UtaFundingRateItem { symbol, funding_rate, next_update, funding_rate_interval })
}

/// An instrument row, of which only the symbol and the funding interval are
/// read.
#[derive(Debug)]
pub struct UtaInstrumentItem {
    pub symbol: String,
    pub fund_interval: String,
}

/// The fields an instrument row reads from a JSON value.
pub open spec fn instrument_row_of(v: JsonValue) -> Option<(Seq<char>, Seq<char>)> {
    let symbol = required_text(field(v, 0, "symbol"@));
    let interval = text_or_default(field(v, 1, "fundInterval"@));
    if struct_shaped(v, 2) && symbol is Ok && interval is Ok {
        Some((symbol->Ok_0, interval->Ok_0))
    } else {
        None
    }
}

/// Reads an instrument row.
pub fn decode_instrument_item(v: &JsonValue) -> (r: Option<UtaInstrumentItem>)
    ensures
        match r {
            Some(i) => instrument_row_of(*v) == Some((i.symbol@, i.fund_interval@)),
            None => instrument_row_of(*v).is_none(),
        },
{
    if !is_struct_shaped(v, 2) {
        return None;
    }
    let symbol = match symbol_field(v) {
        Ok(s) => s,
        Err(_) => {
            return None;
        },
    };
    let fund_interval = match text_field(v, 1, "fundInterval") {
        Ok(s) => s,
        Err(_) => {
            return None;
        },
    };
    Some(UtaInstrumentItem { symbol, fund_interval })
}

/// The ticker rows of a list; `None` when one does not read.
pub open spec fn ticker_rows_of(items: Seq<JsonValue>) -> Option<Seq<Seq<Seq<char>>>> {
    if forall|i: int| 0 <= i < items.len() ==> (#[trigger] ticker_row_of(items[i])) is Some {
        Some(items.map_values(|v: JsonValue| ticker_row_of(v)->Some_0))
    } else {
        None
    }
}

/// The funding rows of a list; `None` when one does not read.
pub open spec fn funding_rows_of(items: Seq<JsonValue>) -> Option<Seq<Seq<Seq<char>>>> {
    if forall|i: int| 0 <= i < items.len() ==> (#[trigger] funding_row_of(items[i])) is Some {
        Some(items.map_values(|v: JsonValue| funding_row_of(v)->Some_0))
    } else {
        None
    }
}

/// The instrument rows of a list; `None` when one does not read.
pub open spec fn instrument_rows_of(items: Seq<JsonValue>) -> Option<Seq<(Seq<char>, Seq<char>)>> {
    if forall|i: int| 0 <= i < items.len() ==> (#[trigger] instrument_row_of(items[i])) is Some {
        Some(items.map_values(|v: JsonValue| instrument_row_of(v)->Some_0))
    } else {
        None
    }
}

/// The list envelope of a body, when it is JSON of that shape.
pub open spec fn list_body(body: Seq<char>) -> Option<(Seq<char>, Seq<char>, Seq<JsonValue>)> {
    match json_document(body) {
        Some(doc) => list_envelope(doc),
        None => None,
    }
}

/// The error for a body that is not a list response of such rows.
pub open spec fn body_error() -> ErrorView {
    ErrorView::Parse("bitget json: invalid payload"@)
}

/// What a list response gives for `op`, from its envelope and its rows as
/// read: the rows when both read and the code is success; otherwise the
/// error.
pub open spec fn rows_result<R>(
    env: Option<(Seq<char>, Seq<char>, Seq<JsonValue>)>,
    rows: Option<Seq<R>>,
    op: Seq<char>,
) -> Result<Seq<R>, ErrorView> {
    match env {
        None => Err(body_error()),
        Some((code, msg, _)) => match rows {
            None => Err(body_error()),
            Some(r) => match ensure_ok_result(code, msg, op) {
                Some(e) => Err(e),
                None => Ok(r),
            },
        },
    }
}

/// What a tickers response body gives for `op`.
pub open spec fn tickers_of(body: Seq<char>, op: Seq<char>) -> Result<Seq<Seq<Seq<char>>>, ErrorView> {
    rows_result(
        list_body(body),
        match list_body(body) {
            Some((_, _, d)) => ticker_rows_of(d),
            None => None,
        },
        op,
    )
}

/// What a current funding rate response body gives for `op`.
pub open spec fn funding_rates_of(body: Seq<char>, op: Seq<char>) -> Result<
    Seq<Seq<Seq<char>>>,
    ErrorView,
> {
    rows_result(
        list_body(body),
        match list_body(body) {
            Some((_, _, d)) => funding_rows_of(d),
            None => None,
        },
        op,
    )
}

/// What an instruments response body gives for `op`.
pub open spec fn instruments_of(body: Seq<char>, op: Seq<char>) -> Result<
    Seq<(Seq<char>, Seq<char>)>,
    ErrorView,
> {
    rows_result(
        list_body(body),
        match list_body(body) {
            Some((_, _, d)) => instrument_rows_of(d),
            None => None,
        },
        op,
    )
}

fn invalid_body() -> (e: ExchangeError)
    ensures
        e@ == body_error(),
{
    ExchangeError::Parse("bitget json: invalid payload".to_owned())
}

/// Reads the ticker rows of a tickers response for `op`.
pub fn tickers_from_body(body: &str, op: &str) -> (r: Result<Vec<UtaTickerItem>, ExchangeError>)
    ensures
        match r {
            Ok(rows) => tickers_of(body@, op@) == Ok::<
                Seq<Seq<Seq<char>>>,
                ErrorView,
            >(rows@.map_values(|t: UtaTickerItem| ticker_fields(t))),
            Err(e) => tickers_of(body@, op@) == Err::<
                Seq<Seq<Seq<char>>>,
                ErrorView,
            >(e@),
        },
{
    let env = match parse_list_envelope(body) {
        Some(e) => e,
        None => {
            return Err(invalid_body());
        },
    };
    let mut rows: Vec<UtaTickerItem> = Vec::new();
    let n = env.data.len();
    let mut i: usize = 0;
    while i < n
        invariant
            n == env.data@.len(),
            i <= n,
            rows@.len() == i,
            match json_document(body@) {
                Some(doc) => list_envelope(doc) == Some((env.code@, env.msg@, env.data@)),
                None => false,
            },
            forall|k: int| 0 <= k < i ==> (#[trigger] ticker_row_of(env.data@[k])) is Some,
            forall|k: int|
                0 <= k < i ==> ticker_row_of(env.data@[k]) == Some(ticker_fields(#[trigger] rows@[k])),
        decreases n - i,
    {
        match decode_ticker_item(&env.data[i]) {
            Some(t) => rows.push(t),
            None => {
                assert(!(ticker_row_of(env.data@[i as int]) is Some));
                return Err(invalid_body());
            },
        }
        i = i + 1;
    }
    assert(rows@.map_values(|t: UtaTickerItem| ticker_fields(t)) =~= env.data@.map_values(
        |v: JsonValue| ticker_row_of(v)->Some_0,
    ));
    match env.into_data(op) {
        Ok(_) => Ok(rows),
        Err(e) => Err(e),
    }
}

/// Reads the rows of a current funding rate response for `op`.
pub fn funding_rates_from_body(body: &str, op: &str) -> (r: Result<Vec<UtaFundingRateItem>, ExchangeError>)
    ensures
        match r {
            Ok(rows) => funding_rates_of(body@, op@) == Ok::<
                Seq<Seq<Seq<char>>>,
                ErrorView,
            >(rows@.map_values(|f: UtaFundingRateItem| funding_fields(f))),
            Err(e) => funding_rates_of(body@, op@) == Err::<
                Seq<Seq<Seq<char>>>,
                ErrorView,
            >(e@),
        },
{
    let env = match parse_list_envelope(body) {
        Some(e) => e,
        None => {
            return Err(invalid_body());
        },
    };
    let mut rows: Vec<UtaFundingRateItem> = Vec::new();
    let n = env.data.len();
    let mut i: usize = 0;
    while i < n
        invariant
            n == env.data@.len(),
            i <= n,
            rows@.len() == i,
            match json_document(body@) {
                Some(doc) => list_envelope(doc) == Some((env.code@, env.msg@, env.data@)),
                None => false,
            },
            forall|k: int| 0 <= k < i ==> (#[trigger] funding_row_of(env.data@[k])) is Some,
            forall|k: int|
                0 <= k < i ==> funding_row_of(env.data@[k]) == Some(funding_fields(#[trigger] rows@[k])),
        decreases n - i,
    {
        match decode_funding_item(&env.data[i]) {
            Some(t) => rows.push(t),
            None => {
                assert(!(funding_row_of(env.data@[i as int]) is Some));
                return Err(invalid_body());
            },
        }
        i = i + 1;
    }
    assert(rows@.map_values(|f: UtaFundingRateItem| funding_fields(f)) =~= env.data@.map_values(
        |v: JsonValue| funding_row_of(v)->Some_0,
    ));
    match env.into_data(op) {
        Ok(_) => Ok(rows),
        Err(e) => Err(e),
    }
}

/// Reads the rows of an instruments response for `op`.
pub fn instruments_from_body(body: &str, op: &str) -> (r: Result<Vec<UtaInstrumentItem>, ExchangeError>)
    ensures
        match r {
            Ok(rows) => instruments_of(body@, op@) == Ok::<
                Seq<(Seq<char>, Seq<char>)>,
                ErrorView,
            >(rows@.map_values(|i: UtaInstrumentItem| (i.symbol@, i.fund_interval@))),
            Err(e) => instruments_of(body@, op@) == Err::<
                Seq<(Seq<char>, Seq<char>)>,
                ErrorView,
            >(e@),
        },
{
    let env = match parse_list_envelope(body) {
        Some(e) => e,
        None => {
            return Err(invalid_body());
        },
    };
    let mut rows: Vec<UtaInstrumentItem> = Vec::new();
    let n = env.data.len();
    let mut i: usize = 0;
    while i < n
        invariant
            n == env.data@.len(),
            i <= n,
            rows@.len() == i,
            match json_document(body@) {
                Some(doc) => list_envelope(doc) == Some((env.code@, env.msg@, env.data@)),
                None => false,
            },
            forall|k: int| 0 <= k < i ==> (#[trigger] instrument_row_of(env.data@[k])) is Some,
            forall|k: int|
                0 <= k < i ==> instrument_row_of(env.data@[k]) == Some(
                    ((#[trigger] rows@[k]).symbol@, rows@[k].fund_interval@),
                ),
        decreases n - i,
    {
        match decode_instrument_item(&env.data[i]) {
            Some(t) => rows.push(t),
            None => {
                assert(!(instrument_row_of(env.data@[i as int]) is Some));
                return Err(invalid_body());
            },
        }
        i = i + 1;
    }
    assert(rows@.map_values(|i: UtaInstrumentItem| (i.symbol@, i.fund_interval@))
        =~= env.data@.map_values(|v: JsonValue| instrument_row_of(v)->Some_0));
    match env.into_data(op) {
        Ok(_) => Ok(rows),
        Err(e) => Err(e),
    }
}

/// An `i64` text that is positive.
pub open spec fn positive_i64_of(s: Seq<char>) -> Option<i64> {
    match parse_i64_text(s) {
        Some(v) => if v > 0 {
            Some(v)
        } else {
            None
        },
        None => None,
    }
}

/// Reads a positive `i64` text.
pub fn parse_positive_i64(value: &str) -> (r: Option<i64>)
    ensures
        r == positive_i64_of(value@),
{
    match parse_i64(value) {
        Some(v) => if v > 0 {
            Some(v)
        } else {
            None
        },
        None => None,
    }
}

/// Integer division rounding toward zero, as `i64` division does.
pub open spec fn div_toward_zero(a: int, b: int) -> int {
    if a >= 0 {
        a / b
    } else {
        -((-a) / b)
    }
}

/// The first multiple of the funding interval after the interval that
/// holds `timestamp_ms`: `(t / interval + 1) * interval` with every step in
/// checked `i64` arithmetic, `None` for a zero interval or when a step
/// overflows.
pub open spec fn next_boundary(timestamp_ms: i64, interval_hours: u32) -> Option<i64> {
    let interval = interval_hours * 3600000;
    if interval == 0 {
        None
    } else {
        let q = div_toward_zero(timestamp_ms as int, interval);
        if q < i64::MIN || q > i64::MAX || q + 1 > i64::MAX {
            None
        } else if (q + 1) * interval < i64::MIN || (q + 1) * interval > i64::MAX {
            None
        } else {
            Some(((q + 1) * interval) as i64)
        }
    }
}

/// The next funding time after `timestamp_ms` on the interval's grid.
pub fn next_interval_boundary(timestamp_ms: i64, interval_hours: u32) -> (r: Option<i64>)
    ensures
        r == next_boundary(timestamp_ms, interval_hours),
{
    let interval_ms = (interval_hours as i64).checked_mul(3600000)?;
    let q = timestamp_ms.checked_div(interval_ms)?;
    let next = q.checked_add(1)?;
    next.checked_mul(interval_ms)
}

/// For a time at or after the epoch, the next funding time is the first
/// point of the interval's grid after it.
pub proof fn next_boundary_is_the_next_grid_point(timestamp_ms: i64, interval_hours: u32)
    requires
        timestamp_ms >= 0,
        interval_hours > 0,
    ensures
        next_boundary(timestamp_ms, interval_hours) matches Some(b) ==> timestamp_ms < b
            <= timestamp_ms + interval_hours * 3600000 && (b as int) % (interval_hours * 3600000) == 0,
{
    let iv: int = interval_hours * 3600000;
    let t: int = timestamp_ms as int;
    let q = t / iv;
    assert(t == q * iv + t % iv && 0 <= t % iv < iv) by (nonlinear_arith)
        requires
            iv > 0,
            q == t / iv,
    ;
    assert((q + 1) * iv == q * iv + iv) by (nonlinear_arith);
    assert(((q + 1) * iv) % iv == 0) by {
        vstd::arithmetic::div_mod::lemma_mod_multiples_basic(q + 1, iv);
    }
}

/// A `u32` text.
pub open spec fn u32_of(s: Seq<char>) -> Option<u32> {
    match parse_u64_text(s) {
        Some(v) => if v <= u32::MAX {
            Some(v as u32)
        } else {
            None
        },
        None => None,
    }
}

/// An instrument's symbol and its funding interval, when that is one the
/// venue publishes.
pub fn instrument_funding_interval(item: &UtaInstrumentItem) -> (r: (String, Option<u32>))
    ensures
        r.0@ == item.symbol@,
        r.1 == match u32_of(item.fund_interval@) {
            Some(h) => if is_bitget_funding_interval(h) {
                Some(h)
            } else {
                None
            },
            None => None,
        },
{
    let hours = match parse_u64(item.fund_interval.as_str()) {
        Some(v) => if v <= 4294967295 {
            Some(v as u32)
        } else {
            None
        },
        None => None,
    };
    (item.symbol.clone(), valid_bitget_funding_interval(hours))
}

} // verus!
