//! Bitget market helpers shared by the V3 / UTA modules: funding interval
//! validation, order book depth limits and spot pair selection.

use vstd::prelude::*;
use crate::symbols::{selects, suffix_pair, suffix_pair_of, symbol_matches, views};

verus! {

/// The funding intervals, in hours, that Bitget publishes.
pub open spec fn is_bitget_funding_interval(hours: u32) -> bool {
    hours == 1 || hours == 2 || hours == 4 || hours == 8
}

/// The funding intervals Bitget publishes are exactly the whole hours from
/// one to eight that divide eight.
pub proof fn funding_intervals_divide_eight_hours(hours: u32)
    ensures
        is_bitget_funding_interval(hours) <==> (1 <= hours <= 8 && 8int % (hours as int) == 0),
{
    assert(8int % 3 == 2);
    assert(8int % 5 == 3);
    assert(8int % 6 == 2);
    assert(8int % 7 == 1);
    assert(8int % 1 == 0 && 8int % 2 == 0 && 8int % 4 == 0 && 8int % 8 == 0);
}

/// Keeps a funding interval only when Bitget publishes it.
pub fn valid_bitget_funding_interval(hours: Option<u32>) -> (r: Option<u32>)
    ensures
        r == match hours {
            Some(h) => if is_bitget_funding_interval(h) {
                Some(h)
            } else {
                None
            },
            None => None,
        },
{
    match hours {
        Some(h) => {
            if h == 1 || h == 2 || h == 4 || h == 8 {
                Some(h)
            } else {
                None
            }
        },
        None => None,
    }
}

/// The order book depth to request: the requested depth clamped to `1..=1000`.
pub fn bitget_depth_limit(depth: u32) -> (r: u32)
    ensures
        r == if depth < 1 {
            1
        } else if depth > 1000 {
            1000
        } else {
            depth
        },
{
    if depth < 1 {
        1
    } else if depth > 1000 {
        1000
    } else {
        depth
    }
}

/// Whether a venue pair symbol (`BTCUSDT`) is among the selected spot pairs.
/// A symbol without a known quote suffix never matches.
pub fn spot_symbol_matches(symbol: &str, symbols: Option<&Vec<String>>) -> (r: bool)
    ensures
        r == match suffix_pair_of(symbol@) {
            None => false,
            Some((b, q)) => selects(
                match symbols {
                    Some(l) => Some(views(l@)),
                    None => None,
                },
                b,
                q,
            ),
        },
{
    match suffix_pair(symbol) {
        None => false,
        Some((base, quote)) => symbol_matches(base.as_str(), quote.as_str(), symbols),
    }
}

} // verus!
