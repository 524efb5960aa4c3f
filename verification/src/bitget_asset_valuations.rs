//! Bitget UTA asset valuations: the USD value of each coin of the unified
//! account, read from the assets' `usdValue` and kept as the trimmed decimal
//! text the venue sent once it reads as a finite number.

use vstd::prelude::*;
use crate::decimal::{is_finite_number, number_kind, parse_number_text, reads_finite};
use crate::error::{ErrorView, ExchangeError};
use crate::text::{eq_ignore_ascii_case, eq_ignore_case, push_str, trim, trimmed};

verus! {

/// One coin of the unified account with its USD value.
#[derive(Debug, Clone)]
pub struct AccountAssetValuationRow {
    pub coin: String,
    pub usd_value: String,
}

/// The USD value of one coin.
#[derive(Debug, Clone)]
pub struct VenueAssetValuation {
    pub venue: String,
    pub currency: String,
    pub usd_value: String,
    pub source: String,
    pub observed_at_ms: i64,
}

/// A text that reads as a finite number.
pub open spec fn finite_text(t: Seq<char>) -> bool {
    t.len() > 0 && (number_kind(t) matches Some(k) && reads_finite(k))
}

fn is_finite_text(t: &str) -> (r: bool)
    ensures
        r == finite_text(t@),
{
    if t.unicode_len() == 0 {
        return false;
    }
    match parse_number_text(t) {
        Some(n) => is_finite_number(&n),
        None => false,
    }
}

/// The coin and value of each row the request keeps, in row order, or the
/// error of the first row that does not read: a blank coin, or (for a kept
/// row) a value that is not a finite number.
pub open spec fn valuations_of(rows: Seq<AccountAssetValuationRow>, currency: Option<Seq<char>>) -> Result<
    Seq<(Seq<char>, Seq<char>)>,
    Seq<char>,
>
    decreases rows.len(),
{
    if rows.len() == 0 {
        Ok(Seq::empty())
    } else {
        let coin = trim(rows[0].coin@);
        let value = trim(rows[0].usd_value@);
        if coin.len() == 0 {
            Err("bitget account usdValue coin is empty"@)
        } else if currency matches Some(w) && !eq_ignore_case(w, coin) {
            valuations_of(rows.drop_first(), currency)
        } else if !finite_text(value) {
            Err("bitget account usdValue invalid for "@ + coin + ": "@ + rows[0].usd_value@)
        } else {
            match valuations_of(rows.drop_first(), currency) {
                Ok(rest) => Ok(seq![(coin, value)] + rest),
                Err(e) => Err(e),
            }
        }
    }
}

/// Whether one text sorts before another: by code point, a prefix first
/// (the order of `str`, which compares UTF-8 bytes).
pub open spec fn text_lt(a: Seq<char>, b: Seq<char>) -> bool
    decreases a.len(),
{
    if b.len() == 0 {
        false
    } else if a.len() == 0 {
        true
    } else if a[0] != b[0] {
        (a[0] as u32) < (b[0] as u32)
    } else {
        text_lt(a.drop_first(), b.drop_first())
    }
}

fn is_text_lt(a: &str, b: &str) -> (r: bool)
    ensures
        r == text_lt(a@, b@),
{
    let n = a.unicode_len();
    let m = b.unicode_len();
    let mut i: usize = 0;
    assert(a@.subrange(0, n as int) =~= a@);
    assert(b@.subrange(0, m as int) =~= b@);
    while i < n && i < m
        invariant
            n == a@.len(),
            m == b@.len(),
            i <= n,
            i <= m,
            text_lt(a@, b@) == text_lt(a@.subrange(i as int, n as int), b@.subrange(i as int, m as int)),
        decreases n - i,
    {
        let x = a.get_char(i);
        let y = b.get_char(i);
        let ghost sa = a@.subrange(i as int, n as int);
        let ghost sb = b@.subrange(i as int, m as int);
        assert(sa[0] == x && sb[0] == y);
        if x != y {
            return (x as u32) < (y as u32);
        }
        assert(sa.drop_first() =~= a@.subrange(i + 1, n as int));
        assert(sb.drop_first() =~= b@.subrange(i + 1, m as int));
        i = i + 1;
    }
    i < m
}

/// `x` placed after every element whose key is not greater than its own:
/// one step of a stable sort by key.
pub open spec fn insert_by_key(sorted: Seq<(Seq<char>, Seq<char>)>, x: (Seq<char>, Seq<char>)) -> Seq<
    (Seq<char>, Seq<char>),
>
    decreases sorted.len(),
{
    if sorted.len() == 0 {
        seq![x]
    } else if text_lt(x.0, sorted.last().0) {
        insert_by_key(sorted.drop_last(), x).push(sorted.last())
    } else {
        sorted.push(x)
    }
}

/// The stable sort of pairs by their first text (what `sort_by` on the key
/// gives).
pub open spec fn sorted_by_key(s: Seq<(Seq<char>, Seq<char>)>) -> Seq<(Seq<char>, Seq<char>)>
    decreases s.len(),
{
    if s.len() == 0 {
        s
    } else {
        insert_by_key(sorted_by_key(s.drop_last()), s.last())
    }
}

pub open spec fn reversed(s: Seq<(Seq<char>, Seq<char>)>) -> Seq<(Seq<char>, Seq<char>)>
    decreases s.len(),
{
    if s.len() == 0 {
        s
    } else {
        seq![s.last()] + reversed(s.drop_last())
    }
}

pub open spec fn pair_views(v: Seq<(String, String)>) -> Seq<(Seq<char>, Seq<char>)> {
    v.map_values(|p: (String, String)| (p.0@, p.1@))
}

fn insert_sorted(v: &mut Vec<(String, String)>, x: (String, String))
    ensures
        pair_views(final(v)@) == insert_by_key(pair_views(old(v)@), (x.0@, x.1@)),
{
    let ghost target = insert_by_key(pair_views(v@), (x.0@, x.1@));
    let mut tail: Vec<(String, String)> = Vec::new();
    while v.len() > 0 && is_text_lt(x.0.as_str(), v[v.len() - 1].0.as_str())
        invariant
            target == insert_by_key(pair_views(v@), (x.0@, x.1@)) + reversed(pair_views(tail@)),
        decreases v.len(),
    {
        let ghost before = pair_views(v@);
        let last = v.pop().unwrap();
        assert(pair_views(v@) =~= before.drop_last());
        assert(before.last() == (last.0@, last.1@));
        let ghost old_tail = pair_views(tail@);
        tail.push(last);
        assert(pair_views(tail@).drop_last() =~= old_tail);
        assert(reversed(pair_views(tail@)) == seq![(last.0@, last.1@)] + reversed(old_tail));
        assert(insert_by_key(before, (x.0@, x.1@)) == insert_by_key(pair_views(v@), (x.0@, x.1@)).push(
            (last.0@, last.1@),
        ));
        assert(target =~= insert_by_key(pair_views(v@), (x.0@, x.1@)) + reversed(pair_views(tail@)));
    }
    let ghost kept = pair_views(v@);
    v.push(x);
    assert(pair_views(v@) =~= kept.push((x.0@, x.1@)));
    assert(insert_by_key(kept, (x.0@, x.1@)) == kept.push((x.0@, x.1@)));
    while tail.len() > 0
        invariant
            target == pair_views(v@) + reversed(pair_views(tail@)),
        decreases tail.len(),
    {
        let ghost before_tail = pair_views(tail@);
        let ghost before_v = pair_views(v@);
        let t = tail.pop().unwrap();
        assert(pair_views(tail@) =~= before_tail.drop_last());
        assert(before_tail.last() == (t.0@, t.1@));
        assert(reversed(before_tail) == seq![(t.0@, t.1@)] + reversed(pair_views(tail@)));
        v.push(t);
        assert(pair_views(v@) =~= before_v.push((t.0@, t.1@)));
        assert(target =~= pair_views(v@) + reversed(pair_views(tail@)));
    }
    assert(reversed(pair_views(tail@)) =~= Seq::<(Seq<char>, Seq<char>)>::empty());
    assert(pair_views(v@) =~= target);
}

/// The valuation views: coin and value.
pub open spec fn valuation_views(v: Seq<VenueAssetValuation>) -> Seq<(Seq<char>, Seq<char>)> {
    v.map_values(|a: VenueAssetValuation| (a.currency@, a.usd_value@))
}

/// Reads the USD value of each coin of the account's assets, keeping only
/// `currency` when one is asked for, sorted by coin (stably); the first row
/// that does not read fails the whole read.
pub fn parse_asset_valuations(
    rows: &Vec<AccountAssetValuationRow>,
    currency: &Option<String>,
    observed_at_ms: i64,
) -> (r: Result<Vec<VenueAssetValuation>, ExchangeError>)
    ensures
        match valuations_of(
            rows@,
            match currency {
                Some(c) => Some(c@),
                None => None,
            },
        ) {
            Ok(vals) => r matches Ok(out) && valuation_views(out@) == sorted_by_key(vals) && forall|
                i: int,
            |
                0 <= i < out@.len() ==> {
                    &&& (#[trigger] out@[i]).venue@ == "bitget"@
                    &&& out@[i].source@ == "bitget.GET /api/v3/account/assets.usdValue"@
                    &&& out@[i].observed_at_ms == observed_at_ms
                },
            Err(m) => r matches Err(e) && e@ == ErrorView::Parse(m),
        },
{
    let ghost wanted = match currency {
        Some(c) => Some(c@),
        None => None,
    };
    let n = rows.len();
    let mut sorted: Vec<(String, String)> = Vec::new();
    let ghost mut kept: Seq<(Seq<char>, Seq<char>)> = Seq::empty();
    let mut i: usize = 0;
    assert(rows@.subrange(0, n as int) =~= rows@);
    while i < n
        invariant
            n == rows@.len(),
            i <= n,
            wanted == (match currency {
                Some(c) => Some(c@),
                None => None,
            }),
            pair_views(sorted@) == sorted_by_key(kept),
            match valuations_of(rows@, wanted) {
                Ok(all) => match valuations_of(rows@.subrange(i as int, n as int), wanted) {
                    Ok(rest) => all == kept + rest,
                    Err(_) => false,
                },
                Err(m) => match valuations_of(rows@.subrange(i as int, n as int), wanted) {
                    Ok(_) => false,
                    Err(m2) => m2 == m,
                },
            },
        decreases n - i,
    {
        let ghost rest = rows@.subrange(i as int, n as int);
        assert(rest[0] == rows@[i as int]);
        assert(rest.drop_first() =~= rows@.subrange(i + 1, n as int));
        let coin = trimmed(rows[i].coin.as_str());
        if coin.unicode_len() == 0 {
            assert(valuations_of(rest, wanted) == Err::<Seq<(Seq<char>, Seq<char>)>, Seq<char>>(
                "bitget account usdValue coin is empty"@,
            ));
            return Err(ExchangeError::Parse("bitget account usdValue coin is empty".to_owned()));
        }
        let skip = match currency {
            Some(w) => !eq_ignore_ascii_case(w.as_str(), coin.as_str()),
            None => false,
        };
        if !skip {
            let value = trimmed(rows[i].usd_value.as_str());
            if !is_finite_text(value.as_str()) {
                let mut m = String::new();
                push_str(&mut m, "bitget account usdValue invalid for ");
                push_str(&mut m, coin.as_str());
                push_str(&mut m, ": ");
                push_str(&mut m, rows[i].usd_value.as_str());
                assert(m@ =~= "bitget account usdValue invalid for "@ + coin@ + ": "@
                    + rows@[i as int].usd_value@);
                assert(valuations_of(rest, wanted) == Err::<Seq<(Seq<char>, Seq<char>)>, Seq<char>>(
                    m@,
                ));
                return Err(ExchangeError::Parse(m));
            }
            proof {
                let x = (coin@, value@);
                assert(kept.push(x).drop_last() =~= kept);
                match valuations_of(rows@.subrange(i + 1, n as int), wanted) {
                    Ok(r2) => {
                        assert(seq![x] + r2 =~= seq![x] + r2);
                        assert(kept + (seq![x] + r2) =~= kept.push(x) + r2);
                    },
                    Err(_) => {},
                }
            }
            let ghost x = (coin@, value@);
            insert_sorted(&mut sorted, (coin, value));
            proof {
                kept = kept.push(x);
            }
        }
        i = i + 1;
    }
    assert(rows@.subrange(n as int, n as int).len() == 0);
    assert(kept + Seq::<(Seq<char>, Seq<char>)>::empty() =~= kept);
    let mut out: Vec<VenueAssetValuation> = Vec::new();
    let m = sorted.len();
    let mut j: usize = 0;
    while j < m
        invariant
            m == sorted@.len(),
            j <= m,
            out@.len() == j,
            valuation_views(out@) == pair_views(sorted@).subrange(0, j as int),
            forall|k: int|
                0 <= k < out@.len() ==> {
                    &&& (#[trigger] out@[k]).venue@ == "bitget"@
                    &&& out@[k].source@ == "bitget.GET /api/v3/account/assets.usdValue"@
                    &&& out@[k].observed_at_ms == observed_at_ms
                },
        decreases m - j,
    {
        let ghost before = out@;
        let currency_text = sorted[j].0.clone();
        let value_text = sorted[j].1.clone();
        assert(currency_text@ == sorted@[j as int].0@ && value_text@ == sorted@[j as int].1@);
        out.push(
            VenueAssetValuation {
                venue: "bitget".to_owned(),
                currency: currency_text,
                usd_value: value_text,
                source: "bitget.GET /api/v3/account/assets.usdValue".to_owned(),
                observed_at_ms,
            },
        );
        assert(out@[j as int].currency@ == sorted@[j as int].0@);
        assert(out@[j as int].usd_value@ == sorted@[j as int].1@);
        assert(pair_views(sorted@)[j as int] == (sorted@[j as int].0@, sorted@[j as int].1@));
        assert(out@.drop_last() == before);
        assert(valuation_views(out@) =~= pair_views(sorted@).subrange(0, j + 1));
        j = j + 1;
    }
    assert(pair_views(sorted@).subrange(0, m as int) =~= pair_views(sorted@));
    Ok(out)
}

} // verus!
