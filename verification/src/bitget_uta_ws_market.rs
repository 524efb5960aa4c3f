//! Bitget V3 / UTA public order book (`books` topic): subscription requests,
//! frame parsing, snapshots and sequenced incremental merges.
//!
//! A book side keeps its levels sorted best first (bids by descending price,
//! asks by ascending price), with sizes above zero and at most
//! `MAX_CACHED_DEPTH` levels. Prices and sizes are kept as the decimal text
//! the venue sent and ordered by their exact values.

use vstd::prelude::*;
use crate::binance_ws_user::finite_value_of;
use crate::bitget_uta_config::{
    arg_texts, category_ws_inst_type, channel_json, channel_request, BitgetUtaCategory,
    BitgetUtaWsArgs,
};
use crate::decimal::{
    compare_values, decimal_wf, is_finite_number, is_positive_reading, is_zero_reading,
    number_kind, parse_number_text, reads_finite, reads_positive, reads_zero, value_order,
    Decimal, DecimalView, NumberText,
};
use crate::clock::stamp_now;
use crate::json::{
    field, get_field, is_struct_shaped, json_document, list_or_default, opt, optional_u64,
    parse_json, required_text, struct_shaped, text_or_default, JsonNumber, JsonValue,
};
use crate::symbols::{
    compact_pair, compact_pair_symbol, strip_common_suffixes, strip_quote, suffix_pair,
    suffix_pair_of, usdt,
};
use crate::text::{
    int_text, int_to_string, nat_text, nat_to_string, parse_i64, parse_i64_text, parse_u64,
    parse_u64_text, push_char, push_str, str_eq, upper,
};

verus! {

pub const EXCHANGE: &'static str = "bitget";
pub const TOPIC: &'static str = "books";
/// The deepest book a caller may ask for.
pub const DEPTH_LEVEL: u32 = 100;
/// The deepest book side the cache keeps, so that deletes can refill the
/// visible window.
pub const MAX_CACHED_DEPTH: usize = 1000;
/// How old a cached book may be and still be served, in milliseconds.
pub const MAX_BOOK_AGE_MS: i64 = 5000;

// ---------------------------------------------------------------------------
// Subscriptions
// ---------------------------------------------------------------------------

/// The native symbol a book stream is keyed by: a spot pair in compact form,
/// or the USDT contract of a base.
pub open spec fn stream_symbol_of(symbol: Seq<char>, category: BitgetUtaCategory) -> Seq<char> {
    if category == BitgetUtaCategory::Spot {
        match compact_pair(symbol) {
            Some(c) => c,
            None => Seq::empty(),
        }
    } else {
        strip_quote(symbol) + usdt()
    }
}

pub fn stream_symbol(symbol: &str, category: BitgetUtaCategory) -> (r: String)
    ensures
        r@ == stream_symbol_of(symbol@, category),
{
    if category == BitgetUtaCategory::Spot {
        return match compact_pair_symbol(symbol) {
            Some(c) => c,
            None => String::new(),
        };
    }
    let mut s = strip_common_suffixes(symbol);
    proof {
        reveal_strlit("USDT");
        assert("USDT"@ =~= usdt());
    }
    push_str(&mut s, "USDT");
    s
}

/// A `subscribe` or `unsubscribe` request for the book of one symbol.
pub open spec fn book_request_json(op: Seq<char>, symbol: Seq<char>, category: BitgetUtaCategory) -> Seq<
    char,
> {
    channel_json(
        op,
        seq![(category_ws_inst_type(category), TOPIC@, upper(stream_symbol_of(symbol, category)))],
    )
}

fn book_request(op: &str, symbol: &str, category: BitgetUtaCategory) -> (r: String)
    ensures
        r@ == book_request_json(op@, symbol@, category),
{
    let stream = stream_symbol(symbol, category);
    let arg = BitgetUtaWsArgs::new(category, TOPIC, stream.as_str());
    let args = vec![arg];
    assert(arg_texts(args@) =~= seq![
        (category_ws_inst_type(category), TOPIC@, upper(stream_symbol_of(symbol@, category))),
    ]);
    channel_request(op, &args)
}

pub fn subscribe_payload_for(symbol: &str, category: BitgetUtaCategory) -> (r: String)
    ensures
        r@ == book_request_json("subscribe"@, symbol@, category),
{
    book_request("subscribe", symbol, category)
}

pub fn unsubscribe_payload_for(symbol: &str, category: BitgetUtaCategory) -> (r: String)
    ensures
        r@ == book_request_json("unsubscribe"@, symbol@, category),
{
    book_request("unsubscribe", symbol, category)
}

/// The subscribe request for a USDT contract's book.
pub fn subscribe_payload(symbol: &str) -> (r: String)
    ensures
        r@ == book_request_json("subscribe"@, symbol@, BitgetUtaCategory::UsdtFutures),
{
    subscribe_payload_for(symbol, BitgetUtaCategory::UsdtFutures)
}

/// The unsubscribe request for a USDT contract's book.
pub fn unsubscribe_payload(symbol: &str) -> (r: String)
    ensures
        r@ == book_request_json("unsubscribe"@, symbol@, BitgetUtaCategory::UsdtFutures),
{
    unsubscribe_payload_for(symbol, BitgetUtaCategory::UsdtFutures)
}

// ---------------------------------------------------------------------------
// Levels
// ---------------------------------------------------------------------------

/// One price level: a price and a size, as decimal text.
#[derive(Debug)]
pub struct BookLevel {
    pub price: String,
    pub size: String,
}

pub ghost struct LevelView {
    pub price: Seq<char>,
    pub size: Seq<char>,
}

impl View for BookLevel {
    type V = LevelView;

    open spec fn view(&self) -> LevelView {
        LevelView { price: self.price@, size: self.size@ }
    }
}

pub open spec fn level_views(levels: Seq<BookLevel>) -> Seq<LevelView> {
    levels.map_values(|l: BookLevel| l@)
}

/// The text reads as a finite number.
pub open spec fn finite_text(t: Seq<char>) -> bool {
    number_kind(t) matches Some(k) && reads_finite(k)
}

/// The exact value of a level's price.
pub open spec fn price_of(l: LevelView) -> DecimalView {
    finite_value_of(l.price)
}

/// The exact value of a level's size.
pub open spec fn size_of(l: LevelView) -> DecimalView {
    finite_value_of(l.size)
}

/// A level a frame may carry: a finite price above zero and a finite size of
/// at least zero (a zero size deletes the level).
#[verifier::opaque]
pub open spec fn level_valid(l: LevelView) -> bool {
    &&& finite_text(l.price)
    &&& finite_text(l.size)
    &&& reads_positive(price_of(l))
    &&& (!size_of(l).neg || reads_zero(size_of(l)))
}

/// The text of a JSON number or of a numeric string, as a float reads it.
pub open spec fn number_text_of(v: JsonValue) -> Option<Seq<char>> {
    match v {
        JsonValue::Number(JsonNumber::PosInt(n)) => Some(nat_text(n as nat)),
        JsonValue::Number(JsonNumber::NegInt(n)) => Some(int_text(n as int)),
        JsonValue::Number(JsonNumber::Float(t)) => Some(t@),
        JsonValue::Str(s) => if number_kind(s@).is_some() {
            Some(s@)
        } else {
            None
        },
        _ => None,
    }
}

fn number_text(v: &JsonValue) -> (r: Option<String>)
    ensures
        match r {
            Some(t) => number_text_of(*v) == Some(t@),
            None => number_text_of(*v).is_none(),
        },
{
    match v {
        JsonValue::Number(JsonNumber::PosInt(n)) => Some(nat_to_string(*n)),
        JsonValue::Number(JsonNumber::NegInt(n)) => Some(int_to_string(*n)),
        JsonValue::Number(JsonNumber::Float(t)) => Some(t.clone()),
        JsonValue::Str(s) => {
            if parse_number_text(s.as_str()).is_some() {
                Some(s.clone())
            } else {
                None
            }
        },
        _ => None,
    }
}

/// The level a JSON level array gives: its first two members as numbers.
pub open spec fn level_of(items: Seq<JsonValue>) -> Option<LevelView> {
    if items.len() < 2 {
        None
    } else {
        match (number_text_of(items[0]), number_text_of(items[1])) {
            (Some(p), Some(s)) => Some(LevelView { price: p, size: s }),
            _ => None,
        }
    }
}

/// The valid levels of a list of level arrays, in order; `None` when a
/// member is not an array (the frame then does not read).
pub open spec fn levels_of(raw: Seq<JsonValue>) -> Option<Seq<LevelView>>
    decreases raw.len(),
{
    if raw.len() == 0 {
        Some(Seq::empty())
    } else {
        match (levels_of(raw.drop_last()), raw.last()) {
            (Some(prev), JsonValue::Array(items)) => match level_of(items@) {
                Some(l) => if level_valid(l) {
                    Some(prev.push(l))
                } else {
                    Some(prev)
                },
                None => Some(prev),
            },
            _ => None,
        }
    }
}

/// Reads a text known to be a finite number.
fn read_value(t: &str) -> (r: Decimal)
    requires
        finite_text(t@),
    ensures
        r@ == finite_value_of(t@),
        decimal_wf(r@),
{
    match parse_number_text(t) {
        Some(NumberText::Finite(d)) => d,
        _ => {
            assert(false);
            Decimal { neg: false, digits: Vec::new(), scale: 0 }
        },
    }
}

fn finite(t: &str) -> (r: bool)
    ensures
        r == finite_text(t@),
{
    match parse_number_text(t) {
        Some(n) => is_finite_number(&n),
        None => false,
    }
}

fn valid_level(l: &BookLevel) -> (r: bool)
    ensures
        r == level_valid(l@),
{
    proof {
        reveal(level_valid);
    }
    if !finite(l.price.as_str()) || !finite(l.size.as_str()) {
        return false;
    }
    let p = read_value(l.price.as_str());
    let s = read_value(l.size.as_str());
    is_positive_reading(&p) && (!s.neg || is_zero_reading(&s))
}

fn read_level(items: &Vec<JsonValue>) -> (r: Option<BookLevel>)
    ensures
        match r {
            Some(l) => level_of(items@) == Some(l@),
            None => level_of(items@).is_none(),
        },
{
    if items.len() < 2 {
        return None;
    }
    let p = match number_text(&items[0]) {
        Some(t) => t,
        None => return None,
    };
    let s = match number_text(&items[1]) {
        Some(t) => t,
        None => return None,
    };
    Some(BookLevel { price: p, size: s })
}

proof fn lemma_levels_prefix_fails(raw: Seq<JsonValue>, k: int)
    requires
        0 <= k <= raw.len(),
        levels_of(raw.subrange(0, k)).is_none(),
    ensures
        levels_of(raw).is_none(),
    decreases raw.len(),
{
    if k < raw.len() {
        assert(raw.drop_last().subrange(0, k) =~= raw.subrange(0, k));
        lemma_levels_prefix_fails(raw.drop_last(), k);
    } else {
        assert(raw.subrange(0, k) =~= raw);
    }
}

pub fn parse_levels(raw: &Vec<JsonValue>) -> (r: Option<Vec<BookLevel>>)
    ensures
        match r {
            Some(v) => levels_of(raw@) == Some(level_views(v@)),
            None => levels_of(raw@).is_none(),
        },
{
    let n = raw.len();
    let mut out: Vec<BookLevel> = Vec::new();
    let mut i: usize = 0;
    assert(raw@.subrange(0, 0) =~= Seq::<JsonValue>::empty());
    assert(level_views(out@) =~= Seq::<LevelView>::empty());
    while i < n
        invariant
            n == raw@.len(),
            i <= n,
            levels_of(raw@.subrange(0, i as int)) == Some(level_views(out@)),
        decreases n - i,
    {
        let ghost next = raw@.subrange(0, i + 1);
        assert(next.drop_last() =~= raw@.subrange(0, i as int));
        assert(next.last() == raw@[i as int]);
        match &raw[i] {
            JsonValue::Array(items) => {
                match read_level(items) {
                    Some(l) => {
                        if valid_level(&l) {
                            let ghost before = level_views(out@);
                            out.push(l);
                            assert(level_views(out@) =~= before.push(l@));
                        }
                    },
                    None => {},
                }
            },
            _ => {
                proof {
                    lemma_levels_prefix_fails(raw@, i + 1);
                }
                return None;
            },
        }
        i = i + 1;
    }
    assert(raw@.subrange(0, n as int) =~= raw@);
    Some(out)
}

// ---------------------------------------------------------------------------
// Book sides
// ---------------------------------------------------------------------------

/// Every level of a side may stand in a book.
pub open spec fn side_valid(side: Seq<LevelView>) -> bool {
    forall|i: int| 0 <= i < side.len() ==> level_valid(#[trigger] side[i])
}

/// `a` is strictly better than `b` on its side: a higher bid or a lower ask.
#[verifier::opaque]
pub open spec fn better(a: LevelView, b: LevelView, descending: bool) -> bool {
    if descending {
        value_order(price_of(a), price_of(b)) > 0
    } else {
        value_order(price_of(a), price_of(b)) < 0
    }
}

/// Where a stable sort puts `x` among already sorted levels: before the
/// first level that `x` is better than.
pub open spec fn insert_at(side: Seq<LevelView>, x: LevelView, descending: bool) -> nat
    decreases side.len(),
{
    if side.len() == 0 {
        0
    } else if better(x, side[0], descending) {
        0
    } else {
        1 + insert_at(side.drop_first(), x, descending)
    }
}

/// The levels sorted best first; levels of equal price keep their order.
pub open spec fn sorted_side(levels: Seq<LevelView>, descending: bool) -> Seq<LevelView>
    decreases levels.len(),
{
    if levels.len() == 0 {
        levels
    } else {
        let prev = sorted_side(levels.drop_last(), descending);
        prev.insert(insert_at(prev, levels.last(), descending) as int, levels.last())
    }
}

proof fn lemma_insert_at_bound(side: Seq<LevelView>, x: LevelView, descending: bool)
    ensures
        insert_at(side, x, descending) <= side.len(),
    decreases side.len(),
{
    if side.len() > 0 {
        lemma_insert_at_bound(side.drop_first(), x, descending);
    }
}

proof fn lemma_sorted_side_valid(levels: Seq<LevelView>, descending: bool)
    requires
        side_valid(levels),
    ensures
        side_valid(sorted_side(levels, descending)),
        sorted_side(levels, descending).len() == levels.len(),
    decreases levels.len(),
{
    if levels.len() > 0 {
        let prev = sorted_side(levels.drop_last(), descending);
        assert(side_valid(levels.drop_last())) by {
            assert forall|i: int| 0 <= i < levels.drop_last().len() implies level_valid(
                #[trigger] levels.drop_last()[i],
            ) by {
                assert(levels.drop_last()[i] == levels[i]);
            }
        }
        lemma_sorted_side_valid(levels.drop_last(), descending);
        lemma_insert_at_bound(prev, levels.last(), descending);
        let k = insert_at(prev, levels.last(), descending) as int;
        let out = prev.insert(k, levels.last());
        assert forall|i: int| 0 <= i < out.len() implies level_valid(#[trigger] out[i]) by {
            if i < k {
                assert(out[i] == prev[i]);
            } else if i == k {
                assert(out[i] == levels[levels.len() - 1]);
            } else {
                assert(out[i] == prev[i - 1]);
            }
        }
    }
}

/// Reads the price of a level that may stand in a book.
fn price_value(l: &BookLevel) -> (r: Decimal)
    requires
        level_valid(l@),
    ensures
        r@ == price_of(l@),
        decimal_wf(r@),
{
    proof {
        reveal(level_valid);
    }
    read_value(l.price.as_str())
}

fn is_better(a: &BookLevel, b: &BookLevel, descending: bool) -> (r: bool)
    requires
        level_valid(a@),
        level_valid(b@),
    ensures
        r == better(a@, b@, descending),
{
    proof {
        reveal(better);
    }
    let pa = price_value(a);
    let pb = price_value(b);
    let c = compare_values(&pa, &pb);
    if descending {
        c > 0
    } else {
        c < 0
    }
}

/// Where a stable sort inserts `x` among the sorted levels `out`.
fn insert_position(out: &Vec<BookLevel>, x: &BookLevel, descending: bool) -> (k: usize)
    requires
        side_valid(level_views(out@)),
        level_valid(x@),
    ensures
        k == insert_at(level_views(out@), x@, descending),
        k <= out@.len(),
{
    let ghost prev = level_views(out@);
    let m = out.len();
    let mut k: usize = 0;
    assert(prev.subrange(0, m as int) =~= prev);
    while k < m
        invariant
            m == out@.len(),
            prev == level_views(out@),
            side_valid(prev),
            level_valid(x@),
            k <= m,
            insert_at(prev, x@, descending) == k + insert_at(
                prev.subrange(k as int, m as int),
                x@,
                descending,
            ),
        decreases m - k,
    {
        let ghost tail = prev.subrange(k as int, m as int);
        assert(tail[0] == prev[k as int]);
        assert(prev[k as int] == out@[k as int]@);
        assert(level_valid(prev[k as int]));
        if is_better(x, &out[k], descending) {
            return k;
        }
        assert(tail.drop_first() =~= prev.subrange(k + 1, m as int));
        k = k + 1;
    }
    assert(prev.subrange(k as int, m as int) =~= Seq::<LevelView>::empty());
    k
}

proof fn lemma_sorted_step(all: Seq<LevelView>, taken: int, descending: bool)
    requires
        0 <= taken < all.len(),
    ensures
        sorted_side(all.subrange(0, taken + 1), descending) == sorted_side(
            all.subrange(0, taken),
            descending,
        ).insert(
            insert_at(sorted_side(all.subrange(0, taken), descending), all[taken], descending) as int,
            all[taken],
        ),
{
    let next = all.subrange(0, taken + 1);
    assert(next.drop_last() =~= all.subrange(0, taken));
    assert(next.last() == all[taken]);
}

proof fn lemma_prefix_valid(all: Seq<LevelView>, k: int)
    requires
        side_valid(all),
        0 <= k <= all.len(),
    ensures
        side_valid(all.subrange(0, k)),
{
    assert forall|i: int| 0 <= i < all.subrange(0, k).len() implies level_valid(
        #[trigger] all.subrange(0, k)[i],
    ) by {
        assert(all.subrange(0, k)[i] == all[i]);
    }
}

/// Sorts levels best first, keeping levels of equal price in their order.
pub fn sort_side(levels: Vec<BookLevel>, descending: bool) -> (r: Vec<BookLevel>)
    requires
        side_valid(level_views(levels@)),
    ensures
        level_views(r@) == sorted_side(level_views(levels@), descending),
{
    let ghost all = level_views(levels@);
    let mut rest = levels;
    let mut out: Vec<BookLevel> = Vec::new();
    let n = rest.len();
    let mut taken: usize = 0;
    assert(all.subrange(0, 0) =~= Seq::<LevelView>::empty());
    assert(level_views(out@) =~= Seq::<LevelView>::empty());
    while rest.len() > 0
        invariant
            all == level_views(levels@),
            side_valid(all),
            n == all.len(),
            taken + rest.len() == n,
            level_views(rest@) == all.subrange(taken as int, n as int),
            level_views(out@) == sorted_side(all.subrange(0, taken as int), descending),
        decreases rest.len(),
    {
        let ghost rest_before = level_views(rest@);
        assert(rest_before[0] == all[taken as int]);
        assert(rest_before[0] == rest@[0]@);
        let ghost old_rest = rest@;
        let x = rest.remove(0);
        assert(x == old_rest[0]);
        assert(x@ == all[taken as int]);
        assert forall|i: int| 0 <= i < rest@.len() implies #[trigger] level_views(rest@)[i] == all[taken
            + 1 + i] by {
            assert(rest@[i] == old_rest[i + 1]);
            assert(rest_before[i + 1] == old_rest[i + 1]@);
            assert(rest_before[i + 1] == all.subrange(taken as int, n as int)[i + 1]);
        }
        assert(level_views(rest@) =~= all.subrange(taken + 1, n as int));
        proof {
            lemma_prefix_valid(all, taken as int);
            lemma_sorted_side_valid(all.subrange(0, taken as int), descending);
        }
        let ghost prev = level_views(out@);
        let k = insert_position(&out, &x, descending);
        out.insert(k, x);
        proof {
            assert(level_views(out@) =~= prev.insert(k as int, all[taken as int]));
            lemma_sorted_step(all, taken as int, descending);
        }
        taken = taken + 1;
    }
    assert(all.subrange(0, n as int) =~= all);
    out
}

/// The levels whose size is above zero, in order.
pub open spec fn positive_only(levels: Seq<LevelView>) -> Seq<LevelView>
    decreases levels.len(),
{
    if levels.len() == 0 {
        levels
    } else if reads_positive(size_of(levels.last())) {
        positive_only(levels.drop_last()).push(levels.last())
    } else {
        positive_only(levels.drop_last())
    }
}

/// The levels a snapshot side keeps: sizes above zero, sorted best first.
pub open spec fn positive_levels_of(levels: Seq<LevelView>, descending: bool) -> Seq<LevelView> {
    sorted_side(positive_only(levels), descending)
}

proof fn lemma_positive_only_valid(levels: Seq<LevelView>)
    requires
        side_valid(levels),
    ensures
        side_valid(positive_only(levels)),
    decreases levels.len(),
{
    if levels.len() > 0 {
        assert(side_valid(levels.drop_last())) by {
            assert forall|i: int| 0 <= i < levels.drop_last().len() implies level_valid(
                #[trigger] levels.drop_last()[i],
            ) by {
                assert(levels.drop_last()[i] == levels[i]);
            }
        }
        lemma_positive_only_valid(levels.drop_last());
        let prev = positive_only(levels.drop_last());
        if reads_positive(size_of(levels.last())) {
            assert forall|i: int| 0 <= i < prev.push(levels.last()).len() implies level_valid(
                #[trigger] prev.push(levels.last())[i],
            ) by {
                if i < prev.len() {
                    assert(prev.push(levels.last())[i] == prev[i]);
                } else {
                    assert(levels.last() == levels[levels.len() - 1]);
                }
            }
        }
    }
}

fn copy_level(l: &BookLevel) -> (r: BookLevel)
    ensures
        r@ == l@,
{
    BookLevel { price: l.price.clone(), size: l.size.clone() }
}

pub fn positive_levels(levels: &Vec<BookLevel>, descending: bool) -> (r: Vec<BookLevel>)
    requires
        side_valid(level_views(levels@)),
    ensures
        level_views(r@) == positive_levels_of(level_views(levels@), descending),
        side_valid(level_views(r@)),
{
    let ghost all = level_views(levels@);
    let n = levels.len();
    let mut kept: Vec<BookLevel> = Vec::new();
    let mut i: usize = 0;
    assert(all.subrange(0, 0) =~= Seq::<LevelView>::empty());
    assert(level_views(kept@) =~= Seq::<LevelView>::empty());
    while i < n
        invariant
            all == level_views(levels@),
            side_valid(all),
            n == all.len(),
            i <= n,
            level_views(kept@) == positive_only(all.subrange(0, i as int)),
        decreases n - i,
    {
        let ghost next = all.subrange(0, i + 1);
        assert(next.drop_last() =~= all.subrange(0, i as int));
        assert(next.last() == levels@[i as int]@);
        assert(level_valid(all[i as int]));
        proof {
            reveal(level_valid);
        }
        let s = read_value(levels[i].size.as_str());
        if is_positive_reading(&s) {
            let ghost before = level_views(kept@);
            kept.push(copy_level(&levels[i]));
            assert(level_views(kept@) =~= before.push(levels@[i as int]@));
        }
        i = i + 1;
    }
    assert(all.subrange(0, n as int) =~= all);
    proof {
        lemma_positive_only_valid(all);
        lemma_sorted_side_valid(positive_only(all), descending);
    }
    sort_side(kept, descending)
}

// ---------------------------------------------------------------------------
// Merging updates into a side
// ---------------------------------------------------------------------------

/// Two levels stand at the same price.
#[verifier::opaque]
pub open spec fn same_price(a: LevelView, b: LevelView) -> bool {
    value_order(price_of(a), price_of(b)) == 0
}

/// A level's size is above zero.
#[verifier::opaque]
pub open spec fn positive_size(l: LevelView) -> bool {
    reads_positive(size_of(l))
}

/// The index of the first level at the price of `u`.
pub open spec fn find_price(side: Seq<LevelView>, u: LevelView) -> Option<int>
    decreases side.len(),
{
    if side.len() == 0 {
        None
    } else if same_price(side[0], u) {
        Some(0)
    } else {
        match find_price(side.drop_first(), u) {
            Some(i) => Some(i + 1),
            None => None,
        }
    }
}

/// One update applied to a side: a level at the update's price takes its
/// size, or leaves when the size is zero; a new price with a size above
/// zero is added at the end.
pub open spec fn merge_one(side: Seq<LevelView>, u: LevelView) -> Seq<LevelView> {
    match find_price(side, u) {
        Some(i) => if positive_size(u) {
            side.update(i, LevelView { price: side[i].price, size: u.size })
        } else {
            side.remove(i)
        },
        None => if positive_size(u) {
            side.push(u)
        } else {
            side
        },
    }
}

/// The updates applied in order.
pub open spec fn merged(side: Seq<LevelView>, updates: Seq<LevelView>) -> Seq<LevelView>
    decreases updates.len(),
{
    if updates.len() == 0 {
        side
    } else {
        merge_one(merged(side, updates.drop_last()), updates.last())
    }
}

/// At most `MAX_CACHED_DEPTH` levels, best first.
pub open spec fn capped(side: Seq<LevelView>) -> Seq<LevelView> {
    if side.len() > MAX_CACHED_DEPTH {
        side.subrange(0, MAX_CACHED_DEPTH as int)
    } else {
        side
    }
}

/// A side after a batch of updates: merged, sorted best first, capped.
pub open spec fn merge_side_of(side: Seq<LevelView>, updates: Seq<LevelView>, descending: bool) -> Seq<
    LevelView,
> {
    capped(sorted_side(merged(side, updates), descending))
}

proof fn lemma_find_price_bound(side: Seq<LevelView>, u: LevelView)
    ensures
        find_price(side, u) matches Some(i) ==> 0 <= i < side.len(),
    decreases side.len(),
{
    if side.len() > 0 {
        lemma_find_price_bound(side.drop_first(), u);
    }
}

proof fn lemma_merge_one_valid(side: Seq<LevelView>, u: LevelView)
    requires
        side_valid(side),
        level_valid(u),
    ensures
        side_valid(merge_one(side, u)),
{
    lemma_find_price_bound(side, u);
    let out = merge_one(side, u);
    match find_price(side, u) {
        Some(i) => {
            if positive_size(u) {
                let l = LevelView { price: side[i].price, size: u.size };
                assert(level_valid(l)) by {
                    reveal(level_valid);
                    assert(level_valid(side[i]));
                }
                assert forall|j: int| 0 <= j < out.len() implies level_valid(#[trigger] out[j]) by {
                    if j != i {
                        assert(out[j] == side[j]);
                    }
                }
            } else {
                assert forall|j: int| 0 <= j < out.len() implies level_valid(#[trigger] out[j]) by {
                    if j < i {
                        assert(out[j] == side[j]);
                    } else {
                        assert(out[j] == side[j + 1]);
                    }
                }
            }
        },
        None => {
            if positive_size(u) {
                assert forall|j: int| 0 <= j < out.len() implies level_valid(#[trigger] out[j]) by {
                    if j < side.len() {
                        assert(out[j] == side[j]);
                    }
                }
            }
        },
    }
}

proof fn lemma_merged_valid(side: Seq<LevelView>, updates: Seq<LevelView>)
    requires
        side_valid(side),
        side_valid(updates),
    ensures
        side_valid(merged(side, updates)),
    decreases updates.len(),
{
    if updates.len() > 0 {
        assert(side_valid(updates.drop_last())) by {
            assert forall|i: int| 0 <= i < updates.drop_last().len() implies level_valid(
                #[trigger] updates.drop_last()[i],
            ) by {
                assert(updates.drop_last()[i] == updates[i]);
            }
        }
        lemma_merged_valid(side, updates.drop_last());
        assert(level_valid(updates[updates.len() - 1]));
        lemma_merge_one_valid(merged(side, updates.drop_last()), updates.last());
    }
}

/// A merged side keeps only levels that may stand in a book, and holds at
/// most `MAX_CACHED_DEPTH` of them.
pub proof fn merged_sides_stay_valid_and_bounded(
    side: Seq<LevelView>,
    updates: Seq<LevelView>,
    descending: bool,
)
    requires
        side_valid(side),
        side_valid(updates),
    ensures
        side_valid(merge_side_of(side, updates, descending)),
        merge_side_of(side, updates, descending).len() <= MAX_CACHED_DEPTH,
{
    lemma_merged_valid(side, updates);
    lemma_sorted_side_valid(merged(side, updates), descending);
    let s = sorted_side(merged(side, updates), descending);
    if s.len() > MAX_CACHED_DEPTH {
        assert forall|i: int| 0 <= i < capped(s).len() implies level_valid(#[trigger] capped(s)[i]) by {
            assert(capped(s)[i] == s[i]);
        }
    }
}

fn has_same_price(a: &BookLevel, b: &BookLevel) -> (r: bool)
    requires
        level_valid(a@),
        level_valid(b@),
    ensures
        r == same_price(a@, b@),
{
    proof {
        reveal(same_price);
    }
    let pa = price_value(a);
    let pb = price_value(b);
    compare_values(&pa, &pb) == 0
}

fn has_positive_size(l: &BookLevel) -> (r: bool)
    requires
        level_valid(l@),
    ensures
        r == positive_size(l@),
{
    proof {
        reveal(level_valid);
        reveal(positive_size);
    }
    let s = read_value(l.size.as_str());
    is_positive_reading(&s)
}

fn position_of_price(side: &Vec<BookLevel>, u: &BookLevel) -> (r: Option<usize>)
    requires
        side_valid(level_views(side@)),
        level_valid(u@),
    ensures
        match r {
            Some(i) => find_price(level_views(side@), u@) == Some(i as int) && i < side@.len(),
            None => find_price(level_views(side@), u@).is_none(),
        },
{
    let ghost all = level_views(side@);
    let n = side.len();
    let mut i: usize = 0;
    assert(all.subrange(0, n as int) =~= all);
    while i < n
        invariant
            all == level_views(side@),
            side_valid(all),
            level_valid(u@),
            n == all.len(),
            i <= n,
            find_price(all, u@) == (match find_price(all.subrange(i as int, n as int), u@) {
                Some(k) => Some(k + i),
                None => None,
            }),
        decreases n - i,
    {
        let ghost rest = all.subrange(i as int, n as int);
        assert(rest[0] == all[i as int]);
        assert(all[i as int] == side@[i as int]@);
        assert(level_valid(all[i as int]));
        if has_same_price(&side[i], u) {
            return Some(i);
        }
        assert(rest.drop_first() =~= all.subrange(i + 1, n as int));
        i = i + 1;
    }
    assert(all.subrange(n as int, n as int) =~= Seq::<LevelView>::empty());
    None
}

fn merge_level(side: &mut Vec<BookLevel>, u: &BookLevel)
    requires
        side_valid(level_views(old(side)@)),
        level_valid(u@),
    ensures
        level_views(final(side)@) == merge_one(level_views(old(side)@), u@),
        side_valid(level_views(final(side)@)),
{
    let ghost before = level_views(side@);
    proof {
        lemma_merge_one_valid(before, u@);
    }
    match position_of_price(side, u) {
        Some(i) => {
            if has_positive_size(u) {
                let price = side[i].price.clone();
                side.set(i, BookLevel { price, size: u.size.clone() });
                assert(level_views(side@) =~= before.update(
                    i as int,
                    LevelView { price: before[i as int].price, size: u@.size },
                ));
            } else {
                side.remove(i);
                assert(level_views(side@) =~= before.remove(i as int));
            }
        },
        None => {
            if has_positive_size(u) {
                side.push(copy_level(u));
                assert(level_views(side@) =~= before.push(u@));
            }
        },
    }
}

/// Applies a batch of updates to a side, then sorts it best first and caps
/// its depth.
pub fn merge_side(side: &mut Vec<BookLevel>, updates: &Vec<BookLevel>, descending: bool)
    requires
        side_valid(level_views(old(side)@)),
        side_valid(level_views(updates@)),
    ensures
        level_views(final(side)@) == merge_side_of(
            level_views(old(side)@),
            level_views(updates@),
            descending,
        ),
        side_valid(level_views(final(side)@)),
{
    let ghost start = level_views(side@);
    let ghost ups = level_views(updates@);
    let n = updates.len();
    let mut i: usize = 0;
    assert(ups.subrange(0, 0) =~= Seq::<LevelView>::empty());
    while i < n
        invariant
            ups == level_views(updates@),
            side_valid(ups),
            n == ups.len(),
            i <= n,
            level_views(side@) == merged(start, ups.subrange(0, i as int)),
            side_valid(level_views(side@)),
        decreases n - i,
    {
        let ghost next = ups.subrange(0, i + 1);
        assert(next.drop_last() =~= ups.subrange(0, i as int));
        assert(next.last() == updates@[i as int]@);
        assert(level_valid(ups[i as int]));
        merge_level(side, &updates[i]);
        i = i + 1;
    }
    assert(ups.subrange(0, n as int) =~= ups);
    let mut taken: Vec<BookLevel> = Vec::new();
    std::mem::swap(&mut taken, side);
    let mut sorted = sort_side(taken, descending);
    sorted.truncate(MAX_CACHED_DEPTH);
    *side = sorted;
    proof {
        merged_sides_stay_valid_and_bounded(start, ups, descending);
        lemma_sorted_side_valid(merged(start, ups), descending);
    }
}

// ---------------------------------------------------------------------------
// Books
// ---------------------------------------------------------------------------

/// A venue order book: bids best (highest) first, asks best (lowest) first.
#[derive(Debug)]
pub struct OrderBookInfo {
    pub symbol: String,
    pub exchange: String,
    pub bids: Vec<BookLevel>,
    pub asks: Vec<BookLevel>,
    pub timestamp: i64,
}

pub ghost struct BookView {
    pub symbol: Seq<char>,
    pub exchange: Seq<char>,
    pub bids: Seq<LevelView>,
    pub asks: Seq<LevelView>,
    pub timestamp: i64,
}

impl View for OrderBookInfo {
    type V = BookView;

    open spec fn view(&self) -> BookView {
        BookView {
            symbol: self.symbol@,
            exchange: self.exchange@,
            bids: level_views(self.bids@),
            asks: level_views(self.asks@),
            timestamp: self.timestamp,
        }
    }
}

/// A cached book with the sequence number of the last frame applied.
#[derive(Debug)]
pub struct CachedBook {
    pub book: OrderBookInfo,
    pub last_seq: u64,
    pub incremental_started: bool,
}

pub ghost struct CachedView {
    pub book: BookView,
    pub last_seq: u64,
    pub incremental_started: bool,
}

impl View for CachedBook {
    type V = CachedView;

    open spec fn view(&self) -> CachedView {
        CachedView {
            book: self.book@,
            last_seq: self.last_seq,
            incremental_started: self.incremental_started,
        }
    }
}

/// Both sides hold levels that may stand in a book.
pub open spec fn book_wf(b: BookView) -> bool {
    side_valid(b.bids) && side_valid(b.asks)
}

/// A two-sided book whose best bid is below its best ask.
pub open spec fn complete_of(bids: Seq<LevelView>, asks: Seq<LevelView>) -> bool {
    bids.len() > 0 && asks.len() > 0 && better(bids[0], asks[0], false)
}

pub fn book_is_complete(book: &OrderBookInfo) -> (r: bool)
    requires
        book_wf(book@),
    ensures
        r == complete_of(book@.bids, book@.asks),
{
    if book.bids.len() == 0 || book.asks.len() == 0 {
        return false;
    }
    assert(level_views(book.bids@)[0] == book.bids@[0]@);
    assert(level_views(book.asks@)[0] == book.asks@[0]@);
    is_better(&book.bids[0], &book.asks[0], false)
}

/// `a.saturating_sub(b)` on `i64`.
pub open spec fn saturating_age(a: i64, b: i64) -> int {
    if a - b > i64::MAX {
        i64::MAX as int
    } else if a - b < i64::MIN {
        i64::MIN as int
    } else {
        a - b
    }
}

/// A book that may be served at `now_ms`: complete, stamped, and at most
/// `MAX_BOOK_AGE_MS` old.
pub open spec fn fresh_and_complete(b: BookView, now_ms: i64) -> bool {
    complete_of(b.bids, b.asks) && b.timestamp > 0 && saturating_age(now_ms, b.timestamp)
        <= MAX_BOOK_AGE_MS
}

pub fn book_is_fresh_and_complete(book: &OrderBookInfo, now_ms: i64) -> (r: bool)
    requires
        book_wf(book@),
    ensures
        r == fresh_and_complete(book@, now_ms),
{
    let diff: i128 = now_ms as i128 - book.timestamp as i128;
    let age: i128 = if diff > 9223372036854775807 {
        9223372036854775807
    } else if diff < -9223372036854775808 {
        -9223372036854775808
    } else {
        diff
    };
    book_is_complete(book) && book.timestamp > 0 && age <= MAX_BOOK_AGE_MS as i128
}

/// The first `n` levels of a side (all of them when it is shorter).
pub open spec fn first_levels(side: Seq<LevelView>, n: int) -> Seq<LevelView> {
    if side.len() > n {
        side.subrange(0, n)
    } else {
        side
    }
}

/// The depth a caller gets: what it asked for, from 1 to `DEPTH_LEVEL`.
pub open spec fn served_depth(depth: u32) -> int {
    if depth < 1 {
        1
    } else if depth > DEPTH_LEVEL {
        DEPTH_LEVEL as int
    } else {
        depth as int
    }
}

fn copy_side(side: &Vec<BookLevel>, n: usize) -> (r: Vec<BookLevel>)
    ensures
        level_views(r@) == first_levels(level_views(side@), n as int),
{
    let m = if side.len() > n {
        n
    } else {
        side.len()
    };
    let mut out: Vec<BookLevel> = Vec::new();
    let mut i: usize = 0;
    while i < m
        invariant
            m <= side@.len(),
            m == (if side@.len() > n {
                n as int
            } else {
                side@.len() as int
            }),
            i <= m,
            level_views(out@) == level_views(side@).subrange(0, i as int),
        decreases m - i,
    {
        let ghost before = level_views(out@);
        let l = copy_level(&side[i]);
        assert(l@ == level_views(side@)[i as int]);
        out.push(l);
        assert(level_views(out@) =~= before.push(l@));
        assert(level_views(out@) =~= level_views(side@).subrange(0, i + 1));
        i = i + 1;
    }
    assert(level_views(side@).subrange(0, m as int) =~= first_levels(level_views(side@), n as int));
    out
}

/// A copy of the book cut to the depth a caller asked for.
pub fn truncate_book(book: &OrderBookInfo, depth: u32) -> (r: OrderBookInfo)
    ensures
        r@ == (BookView {
            bids: first_levels(book@.bids, served_depth(depth)),
            asks: first_levels(book@.asks, served_depth(depth)),
            ..book@
        }),
{
    let d: u32 = if depth < 1 {
        1
    } else if depth > DEPTH_LEVEL {
        DEPTH_LEVEL
    } else {
        depth
    };
    OrderBookInfo {
        symbol: book.symbol.clone(),
        exchange: book.exchange.clone(),
        bids: copy_side(&book.bids, d as usize),
        asks: copy_side(&book.asks, d as usize),
        timestamp: book.timestamp,
    }
}

// ---------------------------------------------------------------------------
// Frames
// ---------------------------------------------------------------------------

#[derive(Clone, Copy, Debug, PartialEq, Eq, Structural)]
pub enum BookAction {
    Snapshot,
    Update,
}

#[derive(Clone, Copy, Debug, PartialEq, Eq, Structural)]
pub enum MergeOutcome {
    Applied,
    Stale,
    Gap,
}

/// A `books` frame of the wanted category, with its valid levels.
#[derive(Debug)]
pub struct ParsedBookMessage {
    pub category: BitgetUtaCategory,
    pub stream_symbol: String,
    pub action: BookAction,
    pub bids: Vec<BookLevel>,
    pub asks: Vec<BookLevel>,
    pub timestamp: i64,
    pub seq: u64,
    pub previous_seq: Option<u64>,
}

pub ghost struct MessageView {
    pub category: BitgetUtaCategory,
    pub stream_symbol: Seq<char>,
    pub action: BookAction,
    pub bids: Seq<LevelView>,
    pub asks: Seq<LevelView>,
    pub timestamp: i64,
    pub seq: u64,
    pub previous_seq: Option<u64>,
}

impl View for ParsedBookMessage {
    type V = MessageView;

    open spec fn view(&self) -> MessageView {
        MessageView {
            category: self.category,
            stream_symbol: self.stream_symbol@,
            action: self.action,
            bids: level_views(self.bids@),
            asks: level_views(self.asks@),
            timestamp: self.timestamp,
            seq: self.seq,
            previous_seq: self.previous_seq,
        }
    }
}

pub open spec fn message_wf(m: MessageView) -> bool {
    side_valid(m.bids) && side_valid(m.asks)
}

/// The display symbol of a book: a spot pair as `BASE/QUOTE`, a contract as
/// its base.
pub open spec fn book_symbol_of(stream_symbol: Seq<char>, category: BitgetUtaCategory) -> Option<
    Seq<char>,
> {
    if category == BitgetUtaCategory::Spot {
        match suffix_pair_of(stream_symbol) {
            Some((base, quote)) => Some(base + seq!['/'] + quote),
            None => None,
        }
    } else {
        Some(strip_quote(stream_symbol))
    }
}

fn book_symbol(stream_symbol: &str, category: BitgetUtaCategory) -> (r: Option<String>)
    ensures
        match r {
            Some(s) => book_symbol_of(stream_symbol@, category) == Some(s@),
            None => book_symbol_of(stream_symbol@, category).is_none(),
        },
{
    if category == BitgetUtaCategory::Spot {
        match suffix_pair(stream_symbol) {
            Some((base, quote)) => {
                let mut s = base;
                push_char(&mut s, '/');
                push_str(&mut s, quote.as_str());
                Some(s)
            },
            None => None,
        }
    } else {
        Some(strip_common_suffixes(stream_symbol))
    }
}

/// The book a snapshot frame gives: sizes above zero, sorted best first,
/// capped, and complete; no book when it is one-sided or crossed.
pub open spec fn snapshot_of(m: MessageView) -> Option<CachedView> {
    match book_symbol_of(m.stream_symbol, m.category) {
        None => None,
        Some(symbol) => {
            let bids = capped(positive_levels_of(m.bids, true));
            let asks = capped(positive_levels_of(m.asks, false));
            if complete_of(bids, asks) {
                Some(
                    CachedView {
                        book: BookView {
                            symbol,
                            exchange: "bitget"@,
                            bids,
                            asks,
                            timestamp: m.timestamp,
                        },
                        last_seq: m.seq,
                        incremental_started: false,
                    },
                )
            } else {
                None
            }
        },
    }
}

proof fn lemma_capped_valid(side: Seq<LevelView>)
    requires
        side_valid(side),
    ensures
        side_valid(capped(side)),
{
    assert forall|i: int| 0 <= i < capped(side).len() implies level_valid(#[trigger] capped(side)[i]) by {
        assert(capped(side)[i] == side[i]);
    }
}

pub fn snapshot_book(message: &ParsedBookMessage) -> (r: Option<CachedBook>)
    requires
        message_wf(message@),
    ensures
        match r {
            Some(c) => snapshot_of(message@) == Some(c@) && book_wf(c@.book),
            None => snapshot_of(message@).is_none(),
        },
{
    let symbol = match book_symbol(message.stream_symbol.as_str(), message.category) {
        Some(s) => s,
        None => return None,
    };
    let mut bids = positive_levels(&message.bids, true);
    let mut asks = positive_levels(&message.asks, false);
    bids.truncate(MAX_CACHED_DEPTH);
    asks.truncate(MAX_CACHED_DEPTH);
    proof {
        lemma_positive_only_valid(message@.bids);
        lemma_positive_only_valid(message@.asks);
        lemma_sorted_side_valid(positive_only(message@.bids), true);
        lemma_sorted_side_valid(positive_only(message@.asks), false);
        lemma_capped_valid(positive_levels_of(message@.bids, true));
        lemma_capped_valid(positive_levels_of(message@.asks, false));
        assert(level_views(bids@) =~= capped(positive_levels_of(message@.bids, true)));
        assert(level_views(asks@) =~= capped(positive_levels_of(message@.asks, false)));
    }
    let book = OrderBookInfo {
        symbol,
        exchange: "bitget".to_owned(),
        bids,
        asks,
        timestamp: message.timestamp,
    };
    if book_is_complete(&book) {
        Some(CachedBook { book, last_seq: message.seq, incremental_started: false })
    } else {
        None
    }
}

/// Whether an update continues the cached sequence. The first update after
/// a snapshot may straddle the snapshot's sequence number; later ones must
/// follow on exactly.
pub open spec fn contiguous(c: CachedView, previous_seq: u64, seq: u64) -> bool {
    if c.incremental_started {
        previous_seq == c.last_seq
    } else {
        previous_seq <= c.last_seq && c.last_seq <= seq
    }
}

/// What an update frame does to a cached book. An update at or below the
/// last applied sequence is stale and changes nothing. One without a
/// previous sequence, or not continuing the cached sequence, is a gap and
/// changes nothing. Otherwise both sides are merged and the frame's time
/// taken; a book that is then not complete is a gap (the caller drops it);
/// a complete one advances to the update's sequence.
pub open spec fn incremental_of(c: CachedView, u: MessageView) -> (CachedView, MergeOutcome) {
    if u.seq <= c.last_seq {
        (c, MergeOutcome::Stale)
    } else {
        match u.previous_seq {
            None => (c, MergeOutcome::Gap),
            Some(p) => if !contiguous(c, p, u.seq) {
                (c, MergeOutcome::Gap)
            } else {
                let bids = merge_side_of(c.book.bids, u.bids, true);
                let asks = merge_side_of(c.book.asks, u.asks, false);
                let book = BookView { bids, asks, timestamp: u.timestamp, ..c.book };
                if !complete_of(bids, asks) {
                    (CachedView { book, ..c }, MergeOutcome::Gap)
                } else {
                    (
                        CachedView { book, last_seq: u.seq, incremental_started: true },
                        MergeOutcome::Applied,
                    )
                }
            },
        }
    }
}

pub fn apply_incremental(cached: &mut CachedBook, update: &ParsedBookMessage) -> (r: MergeOutcome)
    requires
        book_wf(old(cached)@.book),
        message_wf(update@),
    ensures
        (final(cached)@, r) == incremental_of(old(cached)@, update@),
        book_wf(final(cached)@.book),
{
    if update.seq <= cached.last_seq {
        return MergeOutcome::Stale;
    }
    let previous_seq = match update.previous_seq {
        Some(p) => p,
        None => return MergeOutcome::Gap,
    };
    let is_contiguous = if cached.incremental_started {
        previous_seq == cached.last_seq
    } else {
        previous_seq <= cached.last_seq && cached.last_seq <= update.seq
    };
    if !is_contiguous {
        return MergeOutcome::Gap;
    }
    merge_side(&mut cached.book.bids, &update.bids, true);
    merge_side(&mut cached.book.asks, &update.asks, false);
    cached.book.timestamp = update.timestamp;
    if !book_is_complete(&cached.book) {
        return MergeOutcome::Gap;
    }
    cached.last_seq = update.seq;
    cached.incremental_started = true;
    MergeOutcome::Applied
}

// ---------------------------------------------------------------------------
// Reading `books` frames
// ---------------------------------------------------------------------------

pub open spec fn all_arrays(s: Seq<JsonValue>) -> bool {
    forall|i: int| 0 <= i < s.len() ==> (#[trigger] s[i]) is Array
}

/// A member, or `null` when absent (a defaulted JSON value).
pub open spec fn value_or_null(x: Option<JsonValue>) -> JsonValue {
    match x {
        Some(v) => v,
        None => JsonValue::Null,
    }
}

/// One `data` row of a `books` frame.
pub ghost struct BookDataView {
    pub bids: Seq<JsonValue>,
    pub asks: Seq<JsonValue>,
    pub ts: Seq<char>,
    pub seq: JsonValue,
    pub pseq: JsonValue,
}

pub open spec fn book_data_of(v: JsonValue) -> Option<BookDataView> {
    if !struct_shaped(v, 5) {
        None
    } else {
        match (
            list_or_default(field(v, 0, "b"@)),
            list_or_default(field(v, 1, "a"@)),
            text_or_default(field(v, 2, "ts"@)),
        ) {
            (Some(b), Some(a), Ok(ts)) => if all_arrays(b) && all_arrays(a) {
                Some(
                    BookDataView {
                        bids: b,
                        asks: a,
                        ts,
                        seq: value_or_null(field(v, 3, "seq"@)),
                        pseq: value_or_null(field(v, 4, "pseq"@)),
                    },
                )
            } else {
                None
            },
            _ => None,
        }
    }
}

pub open spec fn all_book_data(items: Seq<JsonValue>) -> bool {
    forall|i: int| 0 <= i < items.len() ==> (#[trigger] book_data_of(items[i])) is Some
}

/// The envelope of a `books` frame.
pub ghost struct BookEnvelopeView {
    pub inst_type: Seq<char>,
    pub topic: Seq<char>,
    pub symbol: Seq<char>,
    pub action: Seq<char>,
    pub data: Seq<JsonValue>,
    pub ts: Option<u64>,
}

pub open spec fn book_envelope_of(doc: JsonValue) -> Option<BookEnvelopeView> {
    if !struct_shaped(doc, 4) {
        None
    } else {
        match (
            field(doc, 0, "arg"@),
            text_or_default(field(doc, 1, "action"@)),
            list_or_default(field(doc, 2, "data"@)),
            optional_u64(field(doc, 3, "ts"@)),
        ) {
            (Some(arg), Ok(action), Some(data), Ok(ts)) => if struct_shaped(arg, 3) && all_book_data(
                data,
            ) {
                match (
                    text_or_default(field(arg, 0, "instType"@)),
                    required_text(field(arg, 1, "topic"@)),
                    required_text(field(arg, 2, "symbol"@)),
                ) {
                    (Ok(inst_type), Ok(topic), Ok(symbol)) => Some(
                        BookEnvelopeView { inst_type, topic, symbol, action, data, ts },
                    ),
                    _ => None,
                }
            } else {
                None
            },
            _ => None,
        }
    }
}

/// A sequence number: a JSON integer or a decimal string.
pub open spec fn seq_number_of(v: JsonValue) -> Option<u64> {
    match v {
        JsonValue::Number(JsonNumber::PosInt(n)) => Some(n),
        JsonValue::Str(s) => parse_u64_text(s@),
        _ => None,
    }
}

/// The time of a frame: the row's `ts` when it reads as an integer, else
/// the envelope's `ts`, else `now_ms`.
pub open spec fn frame_time(row_ts: Seq<char>, envelope_ts: Option<u64>, now_ms: i64) -> i64 {
    match parse_i64_text(row_ts) {
        Some(t) => t,
        None => match envelope_ts {
            Some(v) => v as i64,
            None => now_ms,
        },
    }
}

/// What a text means as a `books` frame of `category`: nothing unless it is
/// a snapshot or update of the `books` topic (of this category when the
/// frame names one) whose first row has a level on some side and a sequence
/// number.
pub open spec fn message_of(text: Seq<char>, category: BitgetUtaCategory, now_ms: i64) -> Option<
    MessageView,
> {
    match json_document(text) {
        None => None,
        Some(doc) => match book_envelope_of(doc) {
            None => None,
            Some(env) => {
                let action = if env.action == "snapshot"@ {
                    Some(BookAction::Snapshot)
                } else if env.action == "update"@ {
                    Some(BookAction::Update)
                } else {
                    None
                };
                if env.topic != TOPIC@ || (env.inst_type.len() > 0 && env.inst_type
                    != category_ws_inst_type(category)) {
                    None
                } else if action.is_none() || env.data.len() == 0 {
                    None
                } else {
                    match book_data_of(env.data[0]) {
                        None => None,
                        Some(item) => match (levels_of(item.bids), levels_of(item.asks)) {
                            (Some(bids), Some(asks)) => if bids.len() == 0 && asks.len() == 0 {
                                None
                            } else {
                                match seq_number_of(item.seq) {
                                    None => None,
                                    Some(seq) => Some(
                                        MessageView {
                                            category,
                                            stream_symbol: env.symbol,
                                            action: action->0,
                                            bids,
                                            asks,
                                            timestamp: frame_time(item.ts, env.ts, now_ms),
                                            seq,
                                            previous_seq: if item.pseq is Null {
                                                None
                                            } else {
                                                seq_number_of(item.pseq)
                                            },
                                        },
                                    ),
                                }
                            },
                            _ => None,
                        },
                    }
                }
            },
        },
    }
}

proof fn lemma_levels_valid(raw: Seq<JsonValue>)
    ensures
        levels_of(raw) matches Some(ls) ==> side_valid(ls),
    decreases raw.len(),
{
    if raw.len() > 0 {
        lemma_levels_valid(raw.drop_last());
        match levels_of(raw) {
            Some(ls) => {
                let prev = levels_of(raw.drop_last())->0;
                assert forall|i: int| 0 <= i < ls.len() implies level_valid(#[trigger] ls[i]) by {
                    if i < prev.len() {
                        assert(ls[i] == prev[i]);
                    }
                }
            },
            None => {},
        }
    }
}

fn all_array_items(items: &Vec<JsonValue>) -> (r: bool)
    ensures
        r == all_arrays(items@),
{
    let n = items.len();
    let mut i: usize = 0;
    while i < n
        invariant
            n == items@.len(),
            i <= n,
            forall|k: int| 0 <= k < i ==> (#[trigger] items@[k]) is Array,
        decreases n - i,
    {
        match &items[i] {
            JsonValue::Array(_) => {},
            _ => {
                return false;
            },
        }
        i = i + 1;
    }
    true
}

fn list_member<'a>(v: &'a JsonValue, index: usize, key: &str) -> (r: Result<Option<&'a Vec<JsonValue>>, ()>)
    ensures
        match r {
            Ok(Some(items)) => list_or_default(field(*v, index as nat, key@)) == Some(items@),
            Ok(None) => list_or_default(field(*v, index as nat, key@)) == Some(Seq::<JsonValue>::empty()),
            Err(_) => list_or_default(field(*v, index as nat, key@)).is_none(),
        },
{
    match get_field(v, index, key) {
        None => Ok(None),
        Some(JsonValue::Array(items)) => Ok(Some(items)),
        Some(_) => Err(()),
    }
}

fn book_data_ok(v: &JsonValue) -> (r: bool)
    ensures
        r == book_data_of(*v).is_some(),
{
    if !is_struct_shaped(v, 5) {
        return false;
    }
    let b_ok = match list_member(v, 0, "b") {
        Ok(Some(items)) => all_array_items(items),
        Ok(None) => true,
        Err(_) => false,
    };
    let a_ok = match list_member(v, 1, "a") {
        Ok(Some(items)) => all_array_items(items),
        Ok(None) => true,
        Err(_) => false,
    };
    let ts_ok = crate::json::decode_text_field(v, 2, "ts").is_ok();
    proof {
        assert(all_arrays(Seq::<JsonValue>::empty()));
    }
    b_ok && a_ok && ts_ok
}

fn all_data_ok(data: &Vec<JsonValue>) -> (r: bool)
    ensures
        r == all_book_data(data@),
{
    let n = data.len();
    let mut i: usize = 0;
    while i < n
        invariant
            n == data@.len(),
            i <= n,
            forall|k: int| 0 <= k < i ==> (#[trigger] book_data_of(data@[k])) is Some,
        decreases n - i,
    {
        if !book_data_ok(&data[i]) {
            assert(book_data_of(data@[i as int]) is None);
            return false;
        }
        i = i + 1;
    }
    true
}

fn seq_number(v: Option<&JsonValue>) -> (r: Option<u64>)
    ensures
        r == seq_number_of(value_or_null(opt(v))),
{
    match v {
        Some(JsonValue::Number(JsonNumber::PosInt(n))) => Some(*n),
        Some(JsonValue::Str(s)) => parse_u64(s.as_str()),
        _ => None,
    }
}

fn levels_member(v: &JsonValue, index: usize, key: &str) -> (r: Option<Vec<BookLevel>>)
    ensures
        match r {
            Some(ls) => match list_or_default(field(*v, index as nat, key@)) {
                Some(raw) => levels_of(raw) == Some(level_views(ls@)),
                None => false,
            },
            None => match list_or_default(field(*v, index as nat, key@)) {
                Some(raw) => levels_of(raw).is_none(),
                None => true,
            },
        },
{
    match list_member(v, index, key) {
        Ok(Some(items)) => parse_levels(items),
        Ok(None) => {
            let e: Vec<BookLevel> = Vec::new();
            assert(level_views(e@) =~= Seq::<LevelView>::empty());
            Some(e)
        },
        Err(_) => None,
    }
}

/// Reads a `books` frame of `category`; `now_ms` stamps a frame that carries
/// no time of its own.
pub fn parse_book_message_at(text: &str, category: BitgetUtaCategory, now_ms: i64) -> (r: Option<
    ParsedBookMessage,
>)
    ensures
        match r {
            Some(m) => message_of(text@, category, now_ms) == Some(m@) && message_wf(m@),
            None => message_of(text@, category, now_ms).is_none(),
        },
{
    let doc = match parse_json(text) {
        Some(d) => d,
        None => return None,
    };
    if !is_struct_shaped(&doc, 4) {
        return None;
    }
    let arg = match get_field(&doc, 0, "arg") {
        Some(a) => a,
        None => return None,
    };
    let action = match crate::json::decode_text_field(&doc, 1, "action") {
        Ok(a) => a,
        Err(_) => return None,
    };
    let empty: Vec<JsonValue> = Vec::new();
    let data: &Vec<JsonValue> = match list_member(&doc, 2, "data") {
        Ok(Some(items)) => items,
        Ok(None) => &empty,
        Err(_) => return None,
    };
    let envelope_ts = match crate::json::decode_optional_u64_field(&doc, 3, "ts") {
        Ok(t) => t,
        Err(_) => return None,
    };
    if !is_struct_shaped(arg, 3) {
        return None;
    }
    if !all_data_ok(data) {
        return None;
    }
    let n = data.len();
    let inst_type = match crate::json::decode_text_field(arg, 0, "instType") {
        Ok(t) => t,
        Err(_) => return None,
    };
    let topic = match crate::json::decode_required_text_field(arg, 1, "topic") {
        Ok(t) => t,
        Err(_) => return None,
    };
    let symbol = match crate::json::decode_required_text_field(arg, 2, "symbol") {
        Ok(t) => t,
        Err(_) => return None,
    };
    let ghost env = BookEnvelopeView {
        inst_type: inst_type@,
        topic: topic@,
        symbol: symbol@,
        action: action@,
        data: data@,
        ts: envelope_ts,
    };
    assert(book_envelope_of(doc) == Some(env));
    if !str_eq(topic.as_str(), TOPIC) || (inst_type.unicode_len() > 0 && !str_eq(
        inst_type.as_str(),
        category.as_ws_inst_type(),
    )) {
        return None;
    }
    let act = if str_eq(action.as_str(), "snapshot") {
        BookAction::Snapshot
    } else if str_eq(action.as_str(), "update") {
        BookAction::Update
    } else {
        return None;
    };
    if n == 0 {
        return None;
    }
    let item = &data[0];
    assert(book_data_of(data@[0]) is Some);
    let bids = match levels_member(item, 0, "b") {
        Some(l) => l,
        None => return None,
    };
    let asks = match levels_member(item, 1, "a") {
        Some(l) => l,
        None => return None,
    };
    if bids.len() == 0 && asks.len() == 0 {
        return None;
    }
    let seq = match seq_number(get_field(item, 3, "seq")) {
        Some(s) => s,
        None => return None,
    };
    let pseq_raw = get_field(item, 4, "pseq");
    let previous_seq = match pseq_raw {
        None => None,
        Some(JsonValue::Null) => None,
        Some(_) => seq_number(pseq_raw),
    };
    let ts_text = match crate::json::decode_text_field(item, 2, "ts") {
        Ok(t) => t,
        Err(_) => return None,
    };
    let timestamp = match parse_i64(ts_text.as_str()) {
        Some(t) => t,
        None => match envelope_ts {
            Some(v) => v as i64,
            None => now_ms,
        },
    };
    proof {
        lemma_levels_valid(book_data_of(data@[0])->0.bids);
        lemma_levels_valid(book_data_of(data@[0])->0.asks);
    }
    Some(
        ParsedBookMessage {
            category,
            stream_symbol: symbol,
            action: act,
            bids,
            asks,
            timestamp,
            seq,
            previous_seq,
        },
    )
}

/// Reads a `books` frame of `category`, stamping a frame without a time of
/// its own with the clock's reading.
pub fn parse_book_message_for(text: &str, category: BitgetUtaCategory) -> (r: Option<
    ParsedBookMessage,
>)
    ensures
        match r {
            Some(m) => exists|now: i64| #[trigger] message_of(text@, category, now) == Some(m@),
            None => exists|now: i64| #[trigger] message_of(text@, category, now) is None,
        },
{
    let now = stamp_now();
    parse_book_message_at(text, category, now)
}

/// Reads a `books` frame of a USDT contract.
pub fn parse_book_message(text: &str) -> (r: Option<ParsedBookMessage>)
    ensures
        match r {
            Some(m) => exists|now: i64|
                #[trigger] message_of(text@, BitgetUtaCategory::UsdtFutures, now) == Some(m@),
            None => exists|now: i64|
                #[trigger] message_of(text@, BitgetUtaCategory::UsdtFutures, now) is None,
        },
{
    parse_book_message_for(text, BitgetUtaCategory::UsdtFutures)
}

// ---------------------------------------------------------------------------
// Laws
// ---------------------------------------------------------------------------

/// The sequence of a cached book never moves backwards. A stale update
/// changes nothing; an applied one advances the sequence to its own, marks
/// the incremental stream as started and leaves a complete book; a gap keeps
/// the sequence where it was.
pub proof fn sequence_moves_only_forward(c: CachedView, u: MessageView)
    ensures
        incremental_of(c, u).0.last_seq >= c.last_seq,
        incremental_of(c, u).1 == MergeOutcome::Stale ==> incremental_of(c, u).0 == c,
        incremental_of(c, u).1 == MergeOutcome::Applied ==> {
            let n = incremental_of(c, u).0;
            &&& n.last_seq == u.seq
            &&& u.seq > c.last_seq
            &&& n.incremental_started
            &&& complete_of(n.book.bids, n.book.asks)
        },
        incremental_of(c, u).1 == MergeOutcome::Gap ==> incremental_of(c, u).0.last_seq
            == c.last_seq,
{
}

/// An update that is not newer than the cached book, or that does not
/// continue its sequence, leaves the book untouched.
pub proof fn out_of_sequence_updates_change_nothing(c: CachedView, u: MessageView)
    requires
        u.seq <= c.last_seq || u.previous_seq is None || !contiguous(
            c,
            u.previous_seq->0,
            u.seq,
        ),
    ensures
        incremental_of(c, u).0 == c,
        incremental_of(c, u).1 != MergeOutcome::Applied,
{
}

/// A snapshot gives a complete book of at most `MAX_CACHED_DEPTH` levels a
/// side, all of them with sizes above zero, at the frame's sequence, with
/// no incremental update applied yet.
pub proof fn snapshots_are_complete_and_bounded(m: MessageView)
    requires
        message_wf(m),
    ensures
        snapshot_of(m) matches Some(c) ==> {
            &&& complete_of(c.book.bids, c.book.asks)
            &&& c.book.bids.len() <= MAX_CACHED_DEPTH
            &&& c.book.asks.len() <= MAX_CACHED_DEPTH
            &&& book_wf(c.book)
            &&& c.last_seq == m.seq
            &&& !c.incremental_started
        },
{
    lemma_positive_only_valid(m.bids);
    lemma_positive_only_valid(m.asks);
    lemma_sorted_side_valid(positive_only(m.bids), true);
    lemma_sorted_side_valid(positive_only(m.asks), false);
    lemma_capped_valid(positive_levels_of(m.bids, true));
    lemma_capped_valid(positive_levels_of(m.asks, false));
}

} // verus!
