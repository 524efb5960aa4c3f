//! Reading the Bitget UTA instrument list (`GET /api/v3/market/instruments`)
//! into instrument rows, every member a text that defaults to empty.

use vstd::prelude::*;
use crate::bitget_instruments::{BitgetInstrumentRow, RowView};
use crate::bitget_response::{ensure_ok_result, list_envelope, parse_list_envelope};
use crate::bitget_transfers::{form_query, form_query_text, pairs_view};
use crate::bitget_uta_config::{category_query, BitgetUtaCategory};
use crate::error::{ErrorView, ExchangeError};
use crate::json::{
    decode_text_field, field, is_struct_shaped, json_document, str_views, struct_shaped,
    text_or_default, JsonValue,
};
use crate::text::push_str;

verus! {

pub const INSTRUMENTS_PATH: &'static str = "/api/v3/market/instruments";

/// The path and query of one category's instrument list.
pub fn instruments_path(category: BitgetUtaCategory) -> (r: String)
    ensures
        r@ == INSTRUMENTS_PATH@ + "?"@ + form_query_text(seq![("category"@, category_query(category))]),
{
    let mut params: Vec<(String, String)> = Vec::new();
    params.push(("category".to_owned(), category.as_query().to_owned()));
    assert(pairs_view(params@) =~= seq![("category"@, category_query(category))]);
    let mut path = INSTRUMENTS_PATH.to_owned();
    push_str(&mut path, "?");
    let q = form_query(&params);
    push_str(&mut path, q.as_str());
    path
}

/// The members of an instrument row, in the order of its fields.
pub open spec fn instrument_keys() -> Seq<Seq<char>> {
    seq![
        "symbol"@,
        "category"@,
        "baseCoin"@,
        "quoteCoin"@,
        "settleCoin"@,
        "type"@,
        "status"@,
        "symbolType"@,
        "isRwa"@,
        "isReality"@,
        "priceMultiplier"@,
        "quantityMultiplier"@,
        "pricePrecision"@,
        "quantityPrecision"@,
        "minOrderQty"@,
        "minOrderAmount"@,
        "fundInterval"@,
    ]
}

/// The texts of a record whose members in `keys` are each a string or
/// absent (then empty).
pub open spec fn defaulted_texts(v: JsonValue, keys: Seq<Seq<char>>) -> Option<Seq<Seq<char>>> {
    if struct_shaped(v, keys.len()) && forall|i: int|
        0 <= i < keys.len() ==> (#[trigger] text_or_default(field(v, i as nat, keys[i]))) is Ok {
        Some(Seq::new(keys.len(), |i: int| text_or_default(field(v, i as nat, keys[i]))->Ok_0))
    } else {
        None
    }
}

pub open spec fn row_texts(r: RowView) -> Seq<Seq<char>> {
    seq![
        r.symbol,
        r.category,
        r.base_coin,
        r.quote_coin,
        r.settle_coin,
        r.contract_type,
        r.status,
        r.symbol_type,
        r.is_rwa,
        r.is_reality,
        r.price_multiplier,
        r.quantity_multiplier,
        r.price_precision,
        r.quantity_precision,
        r.min_order_qty,
        r.min_order_amount,
        r.fund_interval,
    ]
}

proof fn lemma_bad_member(v: JsonValue, keys: Seq<Seq<char>>, i: int)
    requires
        0 <= i < keys.len(),
        !(text_or_default(field(v, i as nat, keys[i])) is Ok),
    ensures
        defaulted_texts(v, keys) is None,
{
}

pub open spec fn texts_of(v: Seq<String>) -> Seq<Seq<char>> {
    v.map_values(|t: String| t@)
}

fn decode_defaulted_record(v: &JsonValue, keys: &[&str]) -> (r: Option<Vec<String>>)
    ensures
        match r {
            Some(t) => defaulted_texts(*v, str_views(keys@)) == Some(texts_of(t@)),
            None => defaulted_texts(*v, str_views(keys@)) is None,
        },
{
    let ghost k = str_views(keys@);
    let n = keys.len();
    if !is_struct_shaped(v, n) {
        return None;
    }
    let mut out: Vec<String> = Vec::new();
    let mut i: usize = 0;
    while i < n
        invariant
            n == keys@.len(),
            k == str_views(keys@),
            i <= n,
            out@.len() == i,
            forall|j: int|
                0 <= j < i ==> text_or_default(field(*v, j as nat, k[j])) == Ok::<Seq<char>, ()>(
                    #[trigger] out@[j]@,
                ),
        decreases n - i,
    {
        match decode_text_field(v, i, keys[i]) {
            Ok(t) => out.push(t),
            Err(_) => {
                proof {
                    lemma_bad_member(*v, k, i as int);
                }
                return None;
            },
        }
        i = i + 1;
    }
    assert forall|j: int| 0 <= j < k.len() implies (#[trigger] text_or_default(
        field(*v, j as nat, k[j]),
    )) is Ok by {
        assert(text_or_default(field(*v, j as nat, k[j])) == Ok::<Seq<char>, ()>(out@[j]@));
    }
    assert(Seq::new(k.len(), |j: int| text_or_default(field(*v, j as nat, k[j]))->Ok_0) =~= texts_of(
        out@,
    ));
    Some(out)
}

/// Reads one instrument row.
pub fn decode_instrument_row(v: &JsonValue) -> (r: Option<BitgetInstrumentRow>)
    ensures
        match r {
            Some(row) => defaulted_texts(*v, instrument_keys()) == Some(row_texts(row@)),
            None => defaulted_texts(*v, instrument_keys()) is None,
        },
{
    let keys: [&str; 17] = [
        "symbol",
        "category",
        "baseCoin",
        "quoteCoin",
        "settleCoin",
        "type",
        "status",
        "symbolType",
        "isRwa",
        "isReality",
        "priceMultiplier",
        "quantityMultiplier",
        "pricePrecision",
        "quantityPrecision",
        "minOrderQty",
        "minOrderAmount",
        "fundInterval",
    ];
    assert(str_views(keys@) =~= instrument_keys());
    let t = decode_defaulted_record(v, &keys)?;
    assert(defaulted_texts(*v, instrument_keys()) is Some);
    assert(texts_of(t@).len() == 17);
    let row = BitgetInstrumentRow {
        symbol: t[0].clone(),
        category: t[1].clone(),
        base_coin: t[2].clone(),
        quote_coin: t[3].clone(),
        settle_coin: t[4].clone(),
        contract_type: t[5].clone(),
        status: t[6].clone(),
        symbol_type: t[7].clone(),
        is_rwa: t[8].clone(),
        is_reality: t[9].clone(),
        price_multiplier: t[10].clone(),
        quantity_multiplier: t[11].clone(),
        price_precision: t[12].clone(),
        quantity_precision: t[13].clone(),
        min_order_qty: t[14].clone(),
        min_order_amount: t[15].clone(),
        fund_interval: t[16].clone(),
    };
    assert(texts_of(t@) =~= row_texts(row@));
    Some(row)
}

pub open spec fn rows_texts(rows: Seq<BitgetInstrumentRow>) -> Seq<Seq<Seq<char>>> {
    rows.map_values(|r: BitgetInstrumentRow| row_texts(r@))
}

/// The instrument rows a body holds, or why it holds none.
pub open spec fn instrument_rows_of(body: Seq<char>) -> Result<Seq<Seq<Seq<char>>>, ErrorView> {
    let invalid = ErrorView::Parse("bitget instruments: invalid payload"@);
    match json_document(body) {
        None => Err(invalid),
        Some(doc) => match list_envelope(doc) {
            None => Err(invalid),
            Some((code, msg, data)) => if forall|i: int|
                0 <= i < data.len() ==> (#[trigger] defaulted_texts(data[i], instrument_keys())) is Some {
                match ensure_ok_result(code, msg, "instruments"@) {
                    Some(e) => Err(e),
                    None => Ok(data.map_values(|v: JsonValue| defaulted_texts(v, instrument_keys())->Some_0)),
                }
            } else {
                Err(invalid)
            },
        },
    }
}

fn rows_invalid() -> (e: ExchangeError)
    ensures
        e@ == ErrorView::Parse("bitget instruments: invalid payload"@),
{
    ExchangeError::Parse("bitget instruments: invalid payload".to_owned())
}

/// Reads one category's instrument list.
pub fn instrument_rows_from_body(body: &str) -> (r: Result<Vec<BitgetInstrumentRow>, ExchangeError>)
    ensures
        match r {
            Ok(rows) => instrument_rows_of(body@) == Ok::<Seq<Seq<Seq<char>>>, ErrorView>(
                rows_texts(rows@),
            ),
            Err(e) => instrument_rows_of(body@) == Err::<Seq<Seq<Seq<char>>>, ErrorView>(e@),
        },
{
    let env = match parse_list_envelope(body) {
        Some(e) => e,
        None => return Err(rows_invalid()),
    };
    let mut rows: Vec<BitgetInstrumentRow> = Vec::new();
    let n = env.data.len();
    let mut i: usize = 0;
    while i < n
        invariant
            n == env.data@.len(),
            i <= n,
            rows@.len() == i,
            match json_document(body@) {
                Some(doc) => list_envelope(doc) == Some((env.code@, env.msg@, env.data@)),
                None => false,
            },
            forall|k: int| 0 <= k < i ==> (#[trigger] defaulted_texts(env.data@[k], instrument_keys())) is Some,
            forall|k: int|
                0 <= k < i ==> defaulted_texts(env.data@[k], instrument_keys()) == Some(
                    row_texts((#[trigger] rows@[k])@),
                ),
        decreases n - i,
    {
        match decode_instrument_row(&env.data[i]) {
            Some(row) => rows.push(row),
            None => {
                assert(!(defaulted_texts(env.data@[i as int], instrument_keys()) is Some));
                return Err(rows_invalid());
            },
        }
        i = i + 1;
    }
    assert(rows_texts(rows@) =~= env.data@.map_values(
        |v: JsonValue| defaulted_texts(v, instrument_keys())->Some_0,
    ));
    match env.into_data("instruments") {
        Ok(_) => Ok(rows),
        Err(e) => Err(e),
    }
}

} // verus!
