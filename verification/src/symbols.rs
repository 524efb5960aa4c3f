//! Symbol normalisation shared by the adapters: quote suffixes, compact pair
//! symbols and client order ids.

use vstd::prelude::*;
use crate::text::{
    ends_with, is_blank, push_char, push_str, str_eq, to_lower, to_upper, trim, trimmed, lower,
    upper, upper_char,
};

verus! {

pub open spec fn usdt() -> Seq<char> {
    seq!['U', 'S', 'D', 'T']
}

pub open spec fn usdc() -> Seq<char> {
    seq!['U', 'S', 'D', 'C']
}

pub open spec fn ends_with_seq(s: Seq<char>, t: Seq<char>) -> bool {
    t.len() <= s.len() && s.subrange(s.len() - t.len(), s.len() as int) == t
}

/// The quote asset that `s` ends with, when something precedes it.
pub open spec fn quote_suffix(s: Seq<char>) -> Option<Seq<char>> {
    if s.len() > 4 && ends_with_seq(s, usdt()) {
        Some(usdt())
    } else if s.len() > 4 && ends_with_seq(s, usdc()) {
        Some(usdc())
    } else {
        None
    }
}

/// A symbol's base in upper case: `btcusdt` and `BTCUSDT` become `BTC`; a
/// symbol without a known quote suffix is only upper-cased.
pub open spec fn strip_quote(s: Seq<char>) -> Seq<char> {
    let u = upper(s);
    match quote_suffix(u) {
        Some(q) => u.subrange(0, u.len() - q.len()),
        None => u,
    }
}

/// The `(base, quote)` split of an upper-cased pair symbol.
pub open spec fn suffix_pair_of(s: Seq<char>) -> Option<(Seq<char>, Seq<char>)> {
    let u = upper(s);
    match quote_suffix(u) {
        Some(q) => Some((u.subrange(0, u.len() - q.len()), q)),
        None => None,
    }
}

/// A pair symbol splits, once upper-cased, into a non-empty base followed
/// by its `USDT` or `USDC` quote; stripping the quote leaves that base, and
/// a symbol with no such quote is only upper-cased.
pub proof fn pairs_split_into_base_and_quote(s: Seq<char>)
    ensures
        suffix_pair_of(s) matches Some((b, q)) ==> {
            &&& b + q == upper(s)
            &&& b.len() > 0
            &&& (q == "USDT"@ || q == "USDC"@)
            &&& strip_quote(s) == b
        },
        suffix_pair_of(s) is None ==> strip_quote(s) == upper(s),
        (upper(s).len() > 4 && (ends_with_seq(upper(s), "USDT"@) || ends_with_seq(
            upper(s),
            "USDC"@,
        ))) ==> suffix_pair_of(s) is Some,
{
    reveal_strlit("USDT");
    reveal_strlit("USDC");
    assert(usdt() =~= "USDT"@);
    assert(usdc() =~= "USDC"@);
    let u = upper(s);
    match quote_suffix(u) {
        Some(q) => {
            assert(u.subrange(0, u.len() - q.len()) + q =~= u);
        },
        None => {},
    }
}

pub open spec fn is_separator(c: char) -> bool {
    c == '/' || c == '-' || c == '_'
}

/// `s` without pair separators.
pub open spec fn without_separators(s: Seq<char>) -> Seq<char>
    decreases s.len(),
{
    if s.len() == 0 {
        s
    } else if is_separator(s.last()) {
        without_separators(s.drop_last())
    } else {
        without_separators(s.drop_last()).push(s.last())
    }
}

/// A compact upper-case pair symbol: `btc/usdt` and `BTC` both give
/// `BTCUSDT`; a blank input gives nothing.
pub open spec fn compact_pair(s: Seq<char>) -> Option<Seq<char>> {
    let c = without_separators(upper(trim(s)));
    if c.len() == 0 {
        None
    } else if quote_suffix(c).is_some() {
        Some(c)
    } else {
        Some(c + usdt())
    }
}

/// Every character is its own upper case.
pub open spec fn is_upper_text(s: Seq<char>) -> bool {
    forall|i: int| 0 <= i < s.len() ==> upper_char(#[trigger] s[i]) == s[i]
}

proof fn lemma_upper_is_upper(s: Seq<char>)
    ensures
        is_upper_text(upper(s)),
{
    assert forall|i: int| 0 <= i < upper(s).len() implies upper_char(#[trigger] upper(s)[i])
        == upper(s)[i] by {
        let c = s[i];
        if 'a' <= c && c <= 'z' {
            assert(upper_char(c) == ((c as u32) - 32) as char);
        }
    }
}

proof fn lemma_without_separators_upper(s: Seq<char>)
    requires
        is_upper_text(s),
    ensures
        is_upper_text(without_separators(s)),
    decreases s.len(),
{
    if s.len() > 0 {
        assert(is_upper_text(s.drop_last())) by {
            assert forall|i: int| 0 <= i < s.drop_last().len() implies upper_char(
                #[trigger] s.drop_last()[i],
            ) == s.drop_last()[i] by {
                assert(s.drop_last()[i] == s[i]);
            }
        }
        lemma_without_separators_upper(s.drop_last());
        let prev = without_separators(s.drop_last());
        if !is_separator(s.last()) {
            assert forall|i: int| 0 <= i < prev.push(s.last()).len() implies upper_char(
                #[trigger] prev.push(s.last())[i],
            ) == prev.push(s.last())[i] by {
                if i < prev.len() {
                    assert(prev.push(s.last())[i] == prev[i]);
                } else {
                    assert(s.last() == s[s.len() - 1]);
                }
            }
        }
    }
}

/// A compact pair is upper case and always ends with a known quote asset:
/// a bare base such as `btc` is completed to `BTCUSDT`.
pub proof fn compact_pair_is_upper_with_quote(s: Seq<char>)
    ensures
        compact_pair(s) matches Some(c) ==> quote_suffix(c).is_some() && upper(c) == c,
{
    let c = without_separators(upper(trim(s)));
    lemma_upper_is_upper(trim(s));
    lemma_without_separators_upper(upper(trim(s)));
    if c.len() > 0 {
        if quote_suffix(c).is_none() {
            let d = c + usdt();
            assert(d.subrange(d.len() - usdt().len(), d.len() as int) =~= usdt());
            assert(ends_with_seq(d, usdt()));
            assert(quote_suffix(d).is_some());
            assert(is_upper_text(d)) by {
                assert forall|i: int| 0 <= i < d.len() implies upper_char(#[trigger] d[i])
                    == d[i] by {
                    if i < c.len() {
                        assert(d[i] == c[i]);
                    } else {
                        assert(d[i] == usdt()[i - c.len()]);
                    }
                }
            }
            assert(upper(d) =~= d);
        } else {
            assert(upper(c) =~= c);
        }
    }
}

fn quote_of(s: &str) -> (r: Option<&'static str>)
    ensures
        match r {
            Some(q) => quote_suffix(s@) == Some(q@),
            None => quote_suffix(s@).is_none(),
        },
{
    proof {
        reveal_strlit("USDT");
        reveal_strlit("USDC");
        assert("USDT"@ =~= usdt());
        assert("USDC"@ =~= usdc());
    }
    let n = s.unicode_len();
    if n > 4 && ends_with(s, "USDT") {
        Some("USDT")
    } else if n > 4 && ends_with(s, "USDC") {
        Some("USDC")
    } else {
        None
    }
}

/// Upper-cases a symbol and removes a known quote suffix: `btcusdt` becomes
/// `BTC`.
pub fn strip_common_suffixes(s: &str) -> (r: String)
    ensures
        r@ == strip_quote(s@),
{
    let u = to_upper(s);
    match quote_of(u.as_str()) {
        Some(q) => {
            let n = u.unicode_len();
            let k = q.unicode_len();
            u.as_str().substring_char(0, n - k).to_owned()
        },
        None => u,
    }
}

/// The client order id a text names: trimmed, and none when blank.
pub open spec fn client_id_of(c: Seq<char>) -> Option<Seq<char>> {
    if is_blank(c) {
        None
    } else {
        Some(trim(c))
    }
}

/// A client order id as reported: trimmed, and absent when blank.
pub fn client_order_id_from_str(s: &str) -> (r: Option<String>)
    ensures
        match r {
            Some(id) => !is_blank(s@) && id@ == trim(s@),
            None => is_blank(s@),
        },
{
    if crate::text::blank(s) {
        None
    } else {
        Some(trimmed(s))
    }
}

/// Splits an upper-cased pair symbol into base and quote.
pub fn suffix_pair(s: &str) -> (r: Option<(String, String)>)
    ensures
        match r {
            Some((b, q)) => suffix_pair_of(s@) == Some((b@, q@)),
            None => suffix_pair_of(s@).is_none(),
        },
{
    let u = to_upper(s);
    match quote_of(u.as_str()) {
        Some(q) => {
            let n = u.unicode_len();
            let k = q.unicode_len();
            let base = u.as_str().substring_char(0, n - k).to_owned();
            Some((base, q.to_owned()))
        },
        None => None,
    }
}

fn drop_separators(s: &str) -> (r: String)
    ensures
        r@ == without_separators(s@),
{
    let n = s.unicode_len();
    let mut out = String::new();
    let mut i: usize = 0;
    while i < n
        invariant
            n == s@.len(),
            i <= n,
            out@ == without_separators(s@.subrange(0, i as int)),
        decreases n - i,
    {
        let c = s.get_char(i);
        proof {
            let prev = s@.subrange(0, i as int);
            let next = s@.subrange(0, i + 1);
            assert(next.drop_last() =~= prev);
            assert(next.last() == c);
        }
        if !(c == '/' || c == '-' || c == '_') {
            push_char(&mut out, c);
        }
        i = i + 1;
    }
    assert(s@.subrange(0, n as int) =~= s@);
    out
}

/// The compact pair symbol of a user-supplied market name.
pub fn compact_pair_symbol(s: &str) -> (r: Option<String>)
    ensures
        match r {
            Some(c) => compact_pair(s@) == Some(c@),
            None => compact_pair(s@).is_none(),
        },
{
    let t = trimmed(s);
    let u = to_upper(t.as_str());
    let mut c = drop_separators(u.as_str());
    if c.unicode_len() == 0 {
        return None;
    }
    match quote_of(c.as_str()) {
        Some(_) => Some(c),
        None => {
            proof {
                reveal_strlit("USDT");
                assert("USDT"@ =~= usdt());
            }
            push_str(&mut c, "USDT");
            Some(c)
        },
    }
}

/// Whether `symbols` selects the pair `base`/`quote`; no selection selects all.
pub open spec fn selects(symbols: Option<Seq<Seq<char>>>, base: Seq<char>, quote: Seq<char>) -> bool {
    match symbols {
        None => true,
        Some(list) => exists|i: int|
            0 <= i < list.len() && compact_pair(#[trigger] list[i]) == Some(base + quote),
    }
}

pub open spec fn views(list: Seq<String>) -> Seq<Seq<char>> {
    list.map_values(|s: String| s@)
}

/// Whether the selection names the pair `base`/`quote`.
pub fn symbol_matches(base: &str, quote: &str, symbols: Option<&Vec<String>>) -> (r: bool)
    ensures
        r == selects(
            match symbols {
                Some(l) => Some(views(l@)),
                None => None,
            },
            base@,
            quote@,
        ),
{
    match symbols {
        None => true,
        Some(list) => {
            let mut pair = base.to_owned();
            push_str(&mut pair, quote);
            let n = list.len();
            let mut i: usize = 0;
            while i < n
                invariant
                    n == list@.len(),
                    i <= n,
                    pair@ == base@ + quote@,
                    symbols == Some(list),
                    forall|j: int|
                        0 <= j < i ==> compact_pair(#[trigger] views(list@)[j]) != Some(
                            base@ + quote@,
                        ),
                decreases n - i,
            {
                assert(views(list@)[i as int] == list@[i as int]@);
                match compact_pair_symbol(list[i].as_str()) {
                    Some(c) => {
                        if str_eq(c.as_str(), pair.as_str()) {
                            let ghost vl = views(list@);
                            assert(vl.len() == list@.len());
                            assert(c@ == pair@);
                            assert(compact_pair(vl[i as int]) == Some(base@ + quote@));
                            assert(selects(Some(vl), base@, quote@));
                            return true;
                        }
                    },
                    None => {},
                }
                i = i + 1;
            }
            false
        },
    }
}

/// The lower-case stream name of a USD-M futures symbol: `BTC`, `btcusdt`
/// and `BTCUSDT` all give `btcusdt`; `BTCUSDC` keeps its quote.
pub open spec fn usdm_stream(s: Seq<char>) -> Seq<char> {
    let u = upper(s);
    if quote_suffix(u).is_some() {
        lower(u)
    } else {
        lower(u + usdt())
    }
}

pub fn usdm_stream_symbol(s: &str) -> (r: String)
    ensures
        r@ == usdm_stream(s@),
{
    let mut u = to_upper(s);
    match quote_of(u.as_str()) {
        Some(_) => {},
        None => {
            proof {
                reveal_strlit("USDT");
                assert("USDT"@ =~= usdt());
            }
            push_str(&mut u, "USDT");
        },
    }
    to_lower(u.as_str())
}

} // verus!
