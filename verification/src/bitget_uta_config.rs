//! Bitget V3 / Unified Trading Account endpoints, product categories and
//! WebSocket subscription arguments.
//!
//! REST queries name a category in upper case (`USDT-FUTURES`); WebSocket
//! arguments name it in lower case (`usdt-futures`). The two helpers below
//! pin the casing so that callers cannot swap them.

use vstd::prelude::*;
use crate::json_out::{push_quoted, push_text_member, quoted};
use crate::text::{lower, push_char, to_upper, upper};

verus! {

/// Production REST host; UTA REST paths live under `/api/v3/`.
pub const PROD_BASE: &'static str = "https://api.bitget.com";

/// Production public market data WebSocket.
pub const PROD_WS_PUBLIC: &'static str = "wss://ws.bitget.com/v3/ws/public";

/// Production private (account / order / position / fill) WebSocket.
pub const PROD_WS_PRIVATE: &'static str = "wss://ws.bitget.com/v3/ws/private";

/// Demo trading public WebSocket.
pub const DEMO_WS_PUBLIC: &'static str = "wss://wspap.bitget.com/v3/ws/public";

/// Demo trading private WebSocket.
pub const DEMO_WS_PRIVATE: &'static str = "wss://wspap.bitget.com/v3/ws/private";

/// V3 UTA category routing key.
#[derive(Clone, Copy, Debug, PartialEq, Eq, Structural)]
pub enum BitgetUtaCategory {
    UsdtFutures,
    UsdcFutures,
    CoinFutures,
    Spot,
}

/// The REST query value of a category (upper case).
pub open spec fn category_query(c: BitgetUtaCategory) -> Seq<char> {
    match c {
        BitgetUtaCategory::UsdtFutures => "USDT-FUTURES"@,
        BitgetUtaCategory::UsdcFutures => "USDC-FUTURES"@,
        BitgetUtaCategory::CoinFutures => "COIN-FUTURES"@,
        BitgetUtaCategory::Spot => "SPOT"@,
    }
}

/// The WebSocket `instType` value of a category (lower case).
pub open spec fn category_ws_inst_type(c: BitgetUtaCategory) -> Seq<char> {
    match c {
        BitgetUtaCategory::UsdtFutures => "usdt-futures"@,
        BitgetUtaCategory::UsdcFutures => "usdc-futures"@,
        BitgetUtaCategory::CoinFutures => "coin-futures"@,
        BitgetUtaCategory::Spot => "spot"@,
    }
}

/// A category's REST query value is its WebSocket `instType` in upper case,
/// and the `instType` is the query value in lower case.
pub proof fn category_casings_agree(c: BitgetUtaCategory)
    ensures
        category_query(c) == upper(category_ws_inst_type(c)),
        category_ws_inst_type(c) == lower(category_query(c)),
{
    reveal_strlit("USDT-FUTURES");
    reveal_strlit("USDC-FUTURES");
    reveal_strlit("COIN-FUTURES");
    reveal_strlit("SPOT");
    reveal_strlit("usdt-futures");
    reveal_strlit("usdc-futures");
    reveal_strlit("coin-futures");
    reveal_strlit("spot");
    match c {
        BitgetUtaCategory::UsdtFutures => {
            assert(upper("usdt-futures"@) =~= "USDT-FUTURES"@);
            assert(lower("USDT-FUTURES"@) =~= "usdt-futures"@);
        },
        BitgetUtaCategory::UsdcFutures => {
            assert(upper("usdc-futures"@) =~= "USDC-FUTURES"@);
            assert(lower("USDC-FUTURES"@) =~= "usdc-futures"@);
        },
        BitgetUtaCategory::CoinFutures => {
            assert(upper("coin-futures"@) =~= "COIN-FUTURES"@);
            assert(lower("COIN-FUTURES"@) =~= "coin-futures"@);
        },
        BitgetUtaCategory::Spot => {
            assert(upper("spot"@) =~= "SPOT"@);
            assert(lower("SPOT"@) =~= "spot"@);
        },
    }
}

impl BitgetUtaCategory {
    /// REST query value (upper case, e.g. `USDT-FUTURES`).
    pub fn as_query(self) -> (r: &'static str)
        ensures
            r@ == category_query(self),
    {
        match self {
            BitgetUtaCategory::UsdtFutures => "USDT-FUTURES",
            BitgetUtaCategory::UsdcFutures => "USDC-FUTURES",
            BitgetUtaCategory::CoinFutures => "COIN-FUTURES",
            BitgetUtaCategory::Spot => "SPOT",
        }
    }

    /// WebSocket `instType` value (lower case, e.g. `usdt-futures`).
    pub fn as_ws_inst_type(self) -> (r: &'static str)
        ensures
            r@ == category_ws_inst_type(self),
    {
        match self {
            BitgetUtaCategory::UsdtFutures => "usdt-futures",
            BitgetUtaCategory::UsdcFutures => "usdc-futures",
            BitgetUtaCategory::CoinFutures => "coin-futures",
            BitgetUtaCategory::Spot => "spot",
        }
    }
}

/// One entry of the `args` array of a V3 UTA subscribe / unsubscribe request:
/// `{instType, topic, symbol}` with a lower-case category and an upper-case
/// symbol.
#[derive(Debug)]
pub struct BitgetUtaWsArgs {
    pub inst_type: &'static str,
    pub topic: &'static str,
    pub symbol: String,
}

/// The JSON object of a subscription argument, members in declaration order.
pub open spec fn ws_args_json(inst_type: Seq<char>, topic: Seq<char>, symbol: Seq<char>) -> Seq<
    char,
> {
    seq!['{'] + quoted("instType"@) + seq![':'] + quoted(inst_type) + seq![','] + quoted("topic"@)
        + seq![':'] + quoted(topic) + seq![','] + quoted("symbol"@) + seq![':'] + quoted(symbol)
        + seq!['}']
}

impl BitgetUtaWsArgs {
    pub fn new(category: BitgetUtaCategory, topic: &'static str, symbol: &str) -> (r: Self)
        ensures
            r.inst_type@ == category_ws_inst_type(category),
            r.topic == topic,
            r.symbol@ == upper(symbol@),
    {
        BitgetUtaWsArgs {
            inst_type: category.as_ws_inst_type(),
            topic,
            symbol: to_upper(symbol),
        }
    }

    /// Appends the JSON object of this argument.
    pub fn push_json(&self, out: &mut String)
        ensures
            final(out)@ == old(out)@ + ws_args_json(self.inst_type@, self.topic@, self.symbol@),
    {
        push_char(out, '{');
        push_text_member(out, "instType", self.inst_type);
        push_char(out, ',');
        push_text_member(out, "topic", self.topic);
        push_char(out, ',');
        push_text_member(out, "symbol", self.symbol.as_str());
        push_char(out, '}');
        assert(final(out)@ =~= old(out)@ + ws_args_json(
            self.inst_type@,
            self.topic@,
            self.symbol@,
        ));
    }

    /// Appends this argument as a member of a built JSON value.
    pub fn push_value_json(&self, out: &mut String)
        ensures
            final(out)@ == old(out)@ + ws_args_value_json(self.inst_type@, self.topic@, self.symbol@),
    {
        push_char(out, '{');
        push_text_member(out, "instType", self.inst_type);
        push_char(out, ',');
        push_text_member(out, "symbol", self.symbol.as_str());
        push_char(out, ',');
        push_text_member(out, "topic", self.topic);
        push_char(out, '}');
        assert(final(out)@ =~= old(out)@ + ws_args_value_json(
            self.inst_type@,
            self.topic@,
            self.symbol@,
        ));
    }
}

/// A subscription argument as a member of a built JSON value: members in
/// key order, `{"instType":..,"symbol":..,"topic":..}`.
pub open spec fn ws_args_value_json(inst_type: Seq<char>, topic: Seq<char>, symbol: Seq<char>) -> Seq<
    char,
> {
    seq!['{'] + quoted("instType"@) + seq![':'] + quoted(inst_type) + seq![','] + quoted("symbol"@)
        + seq![':'] + quoted(symbol) + seq![','] + quoted("topic"@) + seq![':'] + quoted(topic)
        + seq!['}']
}

/// The `(instType, topic, symbol)` texts of arguments.
pub open spec fn arg_texts(args: Seq<BitgetUtaWsArgs>) -> Seq<(Seq<char>, Seq<char>, Seq<char>)> {
    args.map_values(|a: BitgetUtaWsArgs| (a.inst_type@, a.topic@, a.symbol@))
}

pub open spec fn joined_args(args: Seq<(Seq<char>, Seq<char>, Seq<char>)>) -> Seq<char>
    decreases args.len(),
{
    if args.len() == 0 {
        Seq::empty()
    } else if args.len() == 1 {
        ws_args_value_json(args[0].0, args[0].1, args[0].2)
    } else {
        joined_args(args.drop_last()) + seq![','] + ws_args_value_json(
            args.last().0,
            args.last().1,
            args.last().2,
        )
    }
}

/// A channel request `{"args":[...],"op":<op>}`, members in key order.
pub open spec fn channel_json(op: Seq<char>, args: Seq<(Seq<char>, Seq<char>, Seq<char>)>) -> Seq<
    char,
> {
    seq!['{'] + quoted("args"@) + seq![':', '['] + joined_args(args) + seq![']', ','] + quoted(
        "op"@,
    ) + seq![':'] + quoted(op) + seq!['}']
}

/// Writes a channel request for `args`.
pub fn channel_request(op: &str, args: &Vec<BitgetUtaWsArgs>) -> (r: String)
    ensures
        r@ == channel_json(op@, arg_texts(args@)),
{
    let ghost texts = arg_texts(args@);
    let mut out = String::new();
    push_char(&mut out, '{');
    push_quoted(&mut out, "args");
    push_char(&mut out, ':');
    push_char(&mut out, '[');
    let ghost start = out@;
    let n = args.len();
    let mut i: usize = 0;
    while i < n
        invariant
            n == args@.len(),
            texts == arg_texts(args@),
            i <= n,
            out@ == start + joined_args(texts.subrange(0, i as int)),
        decreases n - i,
    {
        if i > 0 {
            push_char(&mut out, ',');
        }
        args[i].push_value_json(&mut out);
        proof {
            let next = texts.subrange(0, i + 1);
            assert(next.drop_last() =~= texts.subrange(0, i as int));
            assert(next.last() == texts[i as int]);
            if i == 0 {
                assert(next.len() == 1);
                assert(next[0] == texts[0]);
            }
            assert(out@ =~= start + joined_args(next));
        }
        i = i + 1;
    }
    assert(texts.subrange(0, n as int) =~= texts);
    push_char(&mut out, ']');
    push_char(&mut out, ',');
    push_text_member(&mut out, "op", op);
    push_char(&mut out, '}');
    assert(out@ =~= channel_json(op@, texts));
    out
}

} // verus!
