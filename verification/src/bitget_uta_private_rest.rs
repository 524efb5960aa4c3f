//! Bitget V3 / UTA private REST decisions: which errors leave a placed
//! order's fate unknown, which cancel refusals mean the order is gone, the
//! account's hold mode, the key's trading permission, and order query ids.

use vstd::prelude::*;
use crate::bitget_response::{
    empty_data_error, ensure_ok_result, object_envelope, read_object_envelope,
};
use crate::error::{error_text, ErrorView, ExchangeError};
use crate::json::{
    decode_required_text, field, get_field, is_struct_shaped, json_document, list_or_default,
    parse_json, required_text, struct_shaped, JsonValue,
};
use crate::text::{
    debug_quote, debug_quoted, eq_ignore_ascii_case, eq_ignore_case, lower,
    push_char, push_str, str_eq, to_lower, trim, trimmed,
};

verus! {

/// The venue codes after which a placed order may or may not exist: a
/// request timeout and two internal errors.
pub open spec fn unknown_place_code(code: Seq<char>) -> bool {
    code == "40010"@ || code == "40725"@ || code == "45001"@
}

/// Whether an error from placing an order leaves its fate unknown.
pub open spec fn unknown_place_error(e: ErrorView) -> bool {
    match e {
        ErrorView::Api { exchange, code, .. } => exchange == "bitget"@ && unknown_place_code(code),
        _ => false,
    }
}

/// Whether a place-order error leaves the order's fate unknown, so that it
/// must be looked up by its client id.
pub fn is_unknown_place_result(error: &ExchangeError) -> (r: bool)
    ensures
        r == unknown_place_error(error@),
{
    match error {
        ExchangeError::Api { exchange, code, .. } => str_eq(exchange.as_str(), "bitget") && (str_eq(
            code.as_str(),
            "40010",
        ) || str_eq(code.as_str(), "40725") || str_eq(code.as_str(), "45001")),
        _ => false,
    }
}

/// `needle` occurs in `hay`.
pub open spec fn contains_text(hay: Seq<char>, needle: Seq<char>) -> bool {
    exists|i: int|
        0 <= i && i + needle.len() <= hay.len() && #[trigger] hay.subrange(i, i + needle.len())
            == needle
}

/// `hay.contains(needle)`.
pub fn contains_str(hay: &str, needle: &str) -> (r: bool)
    ensures
        r == contains_text(hay@, needle@),
{
    let n = hay.unicode_len();
    let m = needle.unicode_len();
    if m > n {
        return false;
    }
    let mut i: usize = 0;
    while i <= n - m
        invariant
            n == hay@.len(),
            m == needle@.len(),
            m <= n,
            i <= n - m + 1,
            forall|k: int| 0 <= k < i ==> #[trigger] hay@.subrange(k, k + m) != needle@,
        decreases n - i,
    {
        let mut j: usize = 0;
        let mut same = true;
        while j < m
            invariant
                n == hay@.len(),
                m == needle@.len(),
                i + m <= n,
                j <= m,
                same == (forall|t: int| 0 <= t < j ==> hay@[i + t] == needle@[t]),
            decreases m - j,
        {
            if hay.get_char(i + j) != needle.get_char(j) {
                same = false;
            }
            j = j + 1;
        }
        if same {
            assert(hay@.subrange(i as int, i + m) =~= needle@);
            return true;
        }
        assert(hay@.subrange(i as int, i + m) != needle@) by {
            let t = choose|t: int| 0 <= t < m && hay@[i + t] != needle@[t];
            assert(hay@.subrange(i as int, i + m)[t] == hay@[i + t]);
        }
        i = i + 1;
    }
    assert forall|k: int| 0 <= k && k + m <= n implies #[trigger] hay@.subrange(k, k + m)
        != needle@ by {
        assert(k < i);
    }
    false
}

/// The phrases by which the venue says that an order to cancel is gone.
pub open spec fn order_gone_phrases() -> Seq<Seq<char>> {
    seq![
        "order does not exist"@,
        "order not exist"@,
        "order not found"@,
        "not exist"@,
        "not found"@,
    ]
}

/// A cancel refusal that says the order is gone: an API error whose
/// message, in lower case, names one of the phrases.
pub open spec fn order_gone_error(e: ErrorView) -> bool {
    match e {
        ErrorView::Api { message, .. } => exists|i: int|
            0 <= i < order_gone_phrases().len() && contains_text(
                lower(message),
                #[trigger] order_gone_phrases()[i],
            ),
        _ => false,
    }
}

/// Whether a refused probe cancel says that the order does not exist.
pub fn bitget_safe_cancel_nonmatch(error: &ExchangeError) -> (r: bool)
    ensures
        r == order_gone_error(error@),
{
    match error {
        ExchangeError::Api { message, .. } => {
            let m = to_lower(message.as_str());
            let s = m.as_str();
            let a = contains_str(s, "order does not exist");
            let b = contains_str(s, "order not exist");
            let c = contains_str(s, "order not found");
            let d = contains_str(s, "not exist");
            let e = contains_str(s, "not found");
            proof {
                let p = order_gone_phrases();
                assert(p[0] == "order does not exist"@);
                assert(p[1] == "order not exist"@);
                assert(p[2] == "order not found"@);
                assert(p[3] == "not exist"@);
                assert(p[4] == "not found"@);
                if a || b || c || d || e {
                    if a {
                        assert(contains_text(lower(message@), p[0]));
                    } else if b {
                        assert(contains_text(lower(message@), p[1]));
                    } else if c {
                        assert(contains_text(lower(message@), p[2]));
                    } else if d {
                        assert(contains_text(lower(message@), p[3]));
                    } else {
                        assert(contains_text(lower(message@), p[4]));
                    }
                }
            }
            a || b || c || d || e
        },
        _ => false,
    }
}

/// The error for a probe cancel that the venue accepted.
pub open spec fn safe_cancel_collision() -> ErrorView {
    ErrorView::Api {
        exchange: "bitget"@,
        code: "safe_cancel_collision"@,
        message: "bitget safe cancel probe unexpectedly matched an order; no-match evidence rejected"@,
    }
}

/// What a probe cancel, sent for an order id that should not exist, proves
/// from the venue's answer: an accepted cancel is a collision, a refusal for
/// a missing order is the expected evidence, any other error stands.
pub fn safe_cancel_probe_outcome(answer: Result<(), ExchangeError>) -> (r: Result<(), ExchangeError>)
    ensures
        match answer {
            Ok(()) => r matches Err(e) && e@ == safe_cancel_collision(),
            Err(a) => if order_gone_error(a@) {
                r is Ok
            } else {
                r matches Err(e) && e@ == a@
            },
        },
{
    match answer {
        Ok(()) => Err(
            ExchangeError::Api {
                exchange: "bitget".to_owned(),
                code: "safe_cancel_collision".to_owned(),
                message: "bitget safe cancel probe unexpectedly matched an order; no-match evidence rejected".to_owned(),
            },
        ),
        Err(error) => {
            if bitget_safe_cancel_nonmatch(&error) {
                Ok(())
            } else {
                Err(error)
            }
        },
    }
}

/// The error for an order query id that is blank.
pub open spec fn blank_query_id_error(field_name: Seq<char>) -> ErrorView {
    ErrorView::Parse("bitget "@ + field_name + " must not be empty"@)
}

/// The trimmed id that an order query sends for `field_name`; an error when
/// it is blank.
pub fn required_order_query_id(field_name: &str, value: &str) -> (r: Result<String, ExchangeError>)
    ensures
        match r {
            Ok(v) => trim(value@).len() > 0 && v@ == trim(value@),
            Err(e) => trim(value@).len() == 0 && e@ == blank_query_id_error(field_name@),
        },
{
    let t = trimmed(value);
    if t.as_str().is_empty() {
        let mut m = String::new();
        push_str(&mut m, "bitget ");
        push_str(&mut m, field_name);
        push_str(&mut m, " must not be empty");
        Err(ExchangeError::Parse(m))
    } else {
        Ok(t)
    }
}

proof fn lemma_contains_inner(hay: Seq<char>, long: Seq<char>, short: Seq<char>, offset: int)
    requires
        contains_text(hay, long),
        0 <= offset,
        offset + short.len() <= long.len(),
        long.subrange(offset, offset + short.len()) == short,
    ensures
        contains_text(hay, short),
{
    let i = choose|i: int|
        0 <= i && i + long.len() <= hay.len() && #[trigger] hay.subrange(i, i + long.len())
            == long;
    assert(hay.subrange(i + offset, i + offset + short.len()) =~= short) by {
        assert forall|k: int| 0 <= k < short.len() implies hay.subrange(
            i + offset,
            i + offset + short.len(),
        )[k] == short[k] by {
            assert(hay.subrange(i, i + long.len())[offset + k] == hay[i + offset + k]);
            assert(long.subrange(offset, offset + short.len())[k] == long[offset + k]);
        }
    }
}

/// A cancel refusal says the order is gone exactly when its lower-cased
/// message mentions `not exist` or `not found`: the longer phrases contain
/// one of these two.
pub proof fn order_gone_means_not_exist_or_not_found(e: ErrorView)
    ensures
        order_gone_error(e) <==> (e matches ErrorView::Api { message, .. } && (contains_text(
            lower(message),
            "not exist"@,
        ) || contains_text(lower(message), "not found"@))),
{
    reveal_strlit("order does not exist");
    reveal_strlit("order not exist");
    reveal_strlit("order not found");
    reveal_strlit("not exist");
    reveal_strlit("not found");
    let p = order_gone_phrases();
    if let ErrorView::Api { message, .. } = e {
        let h = lower(message);
        if contains_text(h, p[0]) {
            assert(p[0].subrange(11, 20) =~= "not exist"@);
            lemma_contains_inner(h, p[0], "not exist"@, 11);
        }
        if contains_text(h, p[1]) {
            assert(p[1].subrange(6, 15) =~= "not exist"@);
            lemma_contains_inner(h, p[1], "not exist"@, 6);
        }
        if contains_text(h, p[2]) {
            assert(p[2].subrange(6, 15) =~= "not found"@);
            lemma_contains_inner(h, p[2], "not found"@, 6);
        }
        if contains_text(h, "not exist"@) {
            assert(contains_text(h, p[3]));
        }
        if contains_text(h, "not found"@) {
            assert(contains_text(h, p[4]));
        }
    }
}

fn json_error(path: &str) -> (e: ExchangeError)
    ensures
        e@ == ErrorView::Parse("bitget signed GET json at "@ + path@ + ": invalid payload"@),
{
    let mut m = String::new();
    push_str(&mut m, "bitget signed GET json at ");
    push_str(&mut m, path);
    push_str(&mut m, ": invalid payload");
    ExchangeError::Parse(m)
}

fn schema_error(path: &str) -> (e: ExchangeError)
    ensures
        e@ == ErrorView::Parse("bitget signed GET schema at "@ + path@ + ": invalid payload"@),
{
    let mut m = String::new();
    push_str(&mut m, "bitget signed GET schema at ");
    push_str(&mut m, path);
    push_str(&mut m, ": invalid payload");
    ExchangeError::Parse(m)
}

/// The error for a body at `path` that is not JSON.
pub open spec fn signed_json_error(path: Seq<char>) -> ErrorView {
    ErrorView::Parse("bitget signed GET json at "@ + path + ": invalid payload"@)
}

/// The error for a JSON body at `path` that does not have the expected
/// shape.
pub open spec fn signed_schema_error(path: Seq<char>) -> ErrorView {
    ErrorView::Parse("bitget signed GET schema at "@ + path + ": invalid payload"@)
}

/// The account settings row: `{holdMode}`, required.
pub open spec fn hold_mode_row_of(d: JsonValue) -> Option<Seq<char>> {
    let m = required_text(field(d, 0, "holdMode"@));
    if struct_shaped(d, 1) && m is Ok {
        Some(m->Ok_0)
    } else {
        None
    }
}

/// The error for a hold mode other than the two documented ones.
pub open spec fn unsupported_hold_mode(mode: Seq<char>) -> ErrorView {
    ErrorView::Parse("bitget account settings has unsupported holdMode "@ + debug_quoted(mode))
}

/// A hold mode is accepted when it is `one_way_mode` or `hedge_mode`.
pub open spec fn hold_mode_check(mode: Seq<char>) -> Result<Seq<char>, ErrorView> {
    if mode == "one_way_mode"@ || mode == "hedge_mode"@ {
        Ok(mode)
    } else {
        Err(unsupported_hold_mode(mode))
    }
}

/// The account settings accept exactly the hold modes an order can be
/// compiled for: a mode passes the check exactly when it is the wire value
/// of the one-way or the hedge position mode, and is kept as it is.
pub proof fn checked_hold_modes_are_position_modes(mode: Seq<char>)
    ensures
        hold_mode_check(mode) is Ok <==> (mode == crate::bitget_order_compiler::position_mode_text(
            crate::bitget_order_compiler::BitgetPositionMode::OneWay,
        ) || mode == crate::bitget_order_compiler::position_mode_text(
            crate::bitget_order_compiler::BitgetPositionMode::Hedge,
        )),
        hold_mode_check(mode) matches Ok(m) ==> m == mode,
{
}

/// What the account settings response at `path` gives: the hold mode, or
/// the first error among the body, its shape, the venue's code, a missing
/// row and an unsupported mode.
pub open spec fn account_hold_mode_of(body: Seq<char>, path: Seq<char>) -> Result<
    Seq<char>,
    ErrorView,
> {
    match json_document(body) {
        None => Err(signed_json_error(path)),
        Some(doc) => match object_envelope(doc) {
            None => Err(signed_schema_error(path)),
            Some((code, msg, data)) => {
                let row = match data {
                    Some(d) => hold_mode_row_of(d),
                    None => None,
                };
                if data is Some && row is None {
                    Err(signed_schema_error(path))
                } else {
                    match ensure_ok_result(code, msg, "account settings"@) {
                        Some(api) => Err(api),
                        None => match row {
                            None => Err(empty_data_error("account settings"@)),
                            Some(mode) => hold_mode_check(mode),
                        },
                    }
                }
            },
        },
    }
}

/// Accepts one of the two documented hold modes.
pub fn checked_hold_mode(mode: String) -> (r: Result<String, ExchangeError>)
    ensures
        match r {
            Ok(m) => hold_mode_check(mode@) == Ok::<Seq<char>, ErrorView>(m@),
            Err(e) => hold_mode_check(mode@) == Err::<Seq<char>, ErrorView>(e@),
        },
{
    if str_eq(mode.as_str(), "one_way_mode") || str_eq(mode.as_str(), "hedge_mode") {
        Ok(mode)
    } else {
        let mut m = String::new();
        push_str(&mut m, "bitget account settings has unsupported holdMode ");
        let q = debug_quote(mode.as_str());
        push_str(&mut m, q.as_str());
        Err(ExchangeError::Parse(m))
    }
}

/// Reads the account's hold mode from the account settings response at
/// `path`.
pub fn account_hold_mode(body: &str, path: &str) -> (r: Result<String, ExchangeError>)
    ensures
        match r {
            Ok(m) => account_hold_mode_of(body@, path@) == Ok::<Seq<char>, ErrorView>(m@),
            Err(e) => account_hold_mode_of(body@, path@) == Err::<Seq<char>, ErrorView>(e@),
        },
{
    let doc = match parse_json(body) {
        Some(d) => d,
        None => {
            return Err(json_error(path));
        },
    };
    let env = match read_object_envelope(doc) {
        Some(e) => e,
        None => {
            return Err(schema_error(path));
        },
    };
    let row = match &env.data {
        Some(d) => {
            if !is_struct_shaped(d, 1) {
                return Err(schema_error(path));
            }
            match decode_required_text(get_field(d, 0, "holdMode")) {
                Ok(m) => Some(m),
                Err(_) => {
                    return Err(schema_error(path));
                },
            }
        },
        None => None,
    };
    match env.into_option("account settings") {
        Err(e) => Err(e),
        Ok(_) => match row {
            None => {
                let mut m = String::new();
                push_str(&mut m, "bitget account settings: empty data");
                proof {
                    assert(m@ =~= "bitget "@ + "account settings"@ + ": empty data"@) by {
                        reveal_strlit("bitget account settings: empty data");
                        reveal_strlit("bitget ");
                        reveal_strlit("account settings");
                        reveal_strlit(": empty data");
                    }
                }
                Err(ExchangeError::Parse(m))
            },
            Some(mode) => checked_hold_mode(mode),
        },
    }
}

/// An ASCII letter or digit.
pub open spec fn is_ascii_alnum(c: char) -> bool {
    ('0' <= c && c <= '9') || ('a' <= c && c <= 'z') || ('A' <= c && c <= 'Z')
}

/// The ASCII letters and digits of a text, in order.
pub open spec fn alnum_only(s: Seq<char>) -> Seq<char>
    decreases s.len(),
{
    if s.len() == 0 {
        Seq::empty()
    } else if is_ascii_alnum(s.last()) {
        alnum_only(s.drop_last()).push(s.last())
    } else {
        alnum_only(s.drop_last())
    }
}

/// Whether one of the key's permissions, trimmed and in any letter case,
/// is `uta_trade`.
pub open spec fn grants_trade_scope(permissions: Seq<Seq<char>>) -> bool {
    exists|i: int|
        0 <= i < permissions.len() && eq_ignore_case(trim(#[trigger] permissions[i]), "uta_trade"@)
}

/// `true` or `false`, as `bool` displays.
pub open spec fn bool_text(b: bool) -> Seq<char> {
    if b {
        "true"@
    } else {
        "false"@
    }
}

/// The error for a key that may not trade.
pub open spec fn trading_disabled(perm_type: Seq<char>, trade_scope: bool) -> ErrorView {
    ErrorView::Api {
        exchange: "bitget"@,
        code: "api_trading_disabled"@,
        message: "account info does not grant UTA trade read/write permission: permType="@
            + debug_quoted(perm_type) + ", uta_trade="@ + bool_text(trade_scope),
    }
}

/// A key may trade when its permission type, reduced to lower-case letters
/// and digits, is `readandwrite` and one of its permissions is `uta_trade`.
pub open spec fn permission_check(perm_type: Seq<char>, permissions: Seq<Seq<char>>) -> Result<
    (),
    ErrorView,
> {
    if lower(alnum_only(perm_type)) == "readandwrite"@ && grants_trade_scope(permissions) {
        Ok(())
    } else {
        Err(trading_disabled(perm_type, grants_trade_scope(permissions)))
    }
}

fn alnum_text(s: &str) -> (r: String)
    ensures
        r@ == alnum_only(s@),
{
    let mut out = String::new();
    let n = s.unicode_len();
    let mut i: usize = 0;
    while i < n
        invariant
            n == s@.len(),
            i <= n,
            out@ == alnum_only(s@.subrange(0, i as int)),
        decreases n - i,
    {
        let c = s.get_char(i);
        proof {
            let next = s@.subrange(0, i + 1);
            assert(next.drop_last() =~= s@.subrange(0, i as int));
            assert(next.last() == c);
        }
        if ('0' <= c && c <= '9') || ('a' <= c && c <= 'z') || ('A' <= c && c <= 'Z') {
            push_char(&mut out, c);
        }
        i = i + 1;
    }
    assert(s@.subrange(0, n as int) =~= s@);
    out
}

fn has_trade_scope(permissions: &Vec<String>) -> (r: bool)
    ensures
        r == grants_trade_scope(permissions@.map_values(|p: String| p@)),
{
    let ghost views = permissions@.map_values(|p: String| p@);
    let n = permissions.len();
    let mut i: usize = 0;
    while i < n
        invariant
            n == permissions@.len(),
            views == permissions@.map_values(|p: String| p@),
            i <= n,
            forall|k: int| 0 <= k < i ==> !eq_ignore_case(trim(#[trigger] views[k]), "uta_trade"@),
        decreases n - i,
    {
        let t = trimmed(permissions[i].as_str());
        if eq_ignore_ascii_case(t.as_str(), "uta_trade") {
            assert(views[i as int] == permissions@[i as int]@);
            return true;
        }
        assert(views[i as int] == permissions@[i as int]@);
        i = i + 1;
    }
    false
}

/// Accepts a key whose permissions allow trading.
pub fn check_order_permissions(perm_type: &str, permissions: &Vec<String>) -> (r: Result<
    (),
    ExchangeError,
>)
    ensures
        match r {
            Ok(()) => permission_check(perm_type@, permissions@.map_values(|p: String| p@))
                == Ok::<(), ErrorView>(()),
            Err(e) => permission_check(perm_type@, permissions@.map_values(|p: String| p@))
                == Err::<(), ErrorView>(e@),
        },
{
    let kind = to_lower(alnum_text(perm_type).as_str());
    let scope = has_trade_scope(permissions);
    if str_eq(kind.as_str(), "readandwrite") && scope {
        return Ok(());
    }
    let mut m = String::new();
    push_str(&mut m, "account info does not grant UTA trade read/write permission: permType=");
    let q = debug_quote(perm_type);
    push_str(&mut m, q.as_str());
    push_str(&mut m, ", uta_trade=");
    push_str(&mut m, if scope { "true" } else { "false" });
    Err(
        ExchangeError::Api {
            exchange: "bitget".to_owned(),
            code: "api_trading_disabled".to_owned(),
            message: m,
        },
    )
}

/// The account info row: `{permType, permissions}`, where `permType` is
/// required and `permissions`, a list of texts, defaults to empty.
pub open spec fn account_info_row_of(d: JsonValue) -> Option<(Seq<char>, Seq<Seq<char>>)> {
    let kind = required_text(field(d, 0, "permType"@));
    let list = list_or_default(field(d, 1, "permissions"@));
    if struct_shaped(d, 2) && kind is Ok && list is Some && (forall|i: int|
        0 <= i < list->Some_0.len() ==> (#[trigger] list->Some_0[i]) is Str) {
        Some(
            (
                kind->Ok_0,
                list->Some_0.map_values(
                    |v: JsonValue|
                        match v {
                            JsonValue::Str(s) => s@,
                            _ => Seq::empty(),
                        },
                ),
            ),
        )
    } else {
        None
    }
}

/// What the account info response at `path` gives: success when the key
/// may trade, or the first error among the body, its shape, the venue's
/// code, a missing row and the permission check.
pub open spec fn order_permissions_of(body: Seq<char>, path: Seq<char>) -> Result<(), ErrorView> {
    match json_document(body) {
        None => Err(signed_json_error(path)),
        Some(doc) => match object_envelope(doc) {
            None => Err(signed_schema_error(path)),
            Some((code, msg, data)) => {
                let row = match data {
                    Some(d) => account_info_row_of(d),
                    None => None,
                };
                if data is Some && row is None {
                    Err(signed_schema_error(path))
                } else {
                    match ensure_ok_result(code, msg, "account info"@) {
                        Some(api) => Err(api),
                        None => match row {
                            None => Err(empty_data_error("account info"@)),
                            Some((kind, permissions)) => permission_check(kind, permissions),
                        },
                    }
                }
            },
        },
    }
}

fn read_text_list(x: Option<&JsonValue>) -> (r: Option<Vec<String>>)
    ensures
        match r {
            Some(items) => list_or_default(crate::json::opt(x)) matches Some(l) && (forall|i: int|
                0 <= i < l.len() ==> (#[trigger] l[i]) is Str) && items@.map_values(
                |p: String| p@,
            ) == l.map_values(
                |v: JsonValue|
                    match v {
                        JsonValue::Str(s) => s@,
                        _ => Seq::empty(),
                    },
            ),
            None => !(list_or_default(crate::json::opt(x)) matches Some(l) && (forall|i: int|
                0 <= i < l.len() ==> (#[trigger] l[i]) is Str)),
        },
{
    match x {
        None => {
            let v: Vec<String> = Vec::new();
            assert(v@.map_values(|p: String| p@) =~= Seq::<JsonValue>::empty().map_values(
                |v: JsonValue|
                    match v {
                        JsonValue::Str(s) => s@,
                        _ => Seq::empty(),
                    },
            ));
            Some(v)
        },
        Some(JsonValue::Array(items)) => {
            let mut out: Vec<String> = Vec::new();
            let n = items.len();
            let mut i: usize = 0;
            while i < n
                invariant
                    crate::json::opt(x) == Some(JsonValue::Array(*items)),
                    n == items@.len(),
                    i <= n,
                    out@.len() == i,
                    forall|k: int| 0 <= k < i ==> (#[trigger] items@[k]) is Str,
                    forall|k: int|
                        0 <= k < i ==> (#[trigger] out@[k])@ == (match items@[k] {
                            JsonValue::Str(s) => s@,
                            _ => Seq::empty(),
                        }),
                decreases n - i,
            {
                match &items[i] {
                    JsonValue::Str(s) => {
                        out.push(s.clone());
                    },
                    _ => {
                        assert(!(items@[i as int] is Str));
                        return None;
                    },
                }
                i = i + 1;
            }
            assert(out@.map_values(|p: String| p@) =~= items@.map_values(
                |v: JsonValue|
                    match v {
                        JsonValue::Str(s) => s@,
                        _ => Seq::empty(),
                    },
            ));
            Some(out)
        },
        Some(_) => None,
    }
}

/// Checks, from the account info response at `path`, that the key may
/// place and cancel orders.
pub fn validate_order_permissions(body: &str, path: &str) -> (r: Result<(), ExchangeError>)
    ensures
        match r {
            Ok(()) => order_permissions_of(body@, path@) == Ok::<(), ErrorView>(()),
            Err(e) => order_permissions_of(body@, path@) == Err::<(), ErrorView>(e@),
        },
{
    let doc = match parse_json(body) {
        Some(d) => d,
        None => {
            return Err(json_error(path));
        },
    };
    let env = match read_object_envelope(doc) {
        Some(e) => e,
        None => {
            return Err(schema_error(path));
        },
    };
    let row = match &env.data {
        Some(d) => {
            if !is_struct_shaped(d, 2) {
                return Err(schema_error(path));
            }
            let kind = match decode_required_text(get_field(d, 0, "permType")) {
                Ok(k) => k,
                Err(_) => {
                    return Err(schema_error(path));
                },
            };
            let permissions = match read_text_list(get_field(d, 1, "permissions")) {
                Some(p) => p,
                None => {
                    return Err(schema_error(path));
                },
            };
            Some((kind, permissions))
        },
        None => None,
    };
    match env.into_option("account info") {
        Err(e) => Err(e),
        Ok(_) => match row {
            None => {
                let mut m = String::new();
                push_str(&mut m, "bitget account info: empty data");
                proof {
                    assert(m@ =~= "bitget "@ + "account info"@ + ": empty data"@) by {
                        reveal_strlit("bitget account info: empty data");
                        reveal_strlit("bitget ");
                        reveal_strlit("account info");
                        reveal_strlit(": empty data");
                    }
                }
                Err(ExchangeError::Parse(m))
            },
            Some((kind, permissions)) => check_order_permissions(kind.as_str(), &permissions),
        },
    }
}

/// The error for a place result that the client-id lookup could not
/// settle: a network error naming both errors.
pub open spec fn ambiguous_place_error(error: ErrorView, query: ErrorView) -> ErrorView {
    ErrorView::Network(
        "bitget place result is ambiguous ("@ + error_text(error)
            + "); clientOid confirmation failed: "@ + error_text(query),
    )
}

/// Settles a place-order error whose fate is unknown (see
/// `is_unknown_place_result`) with the lookup of the order by its client id:
/// the order found stands for the placement, none found leaves the original
/// error, and a failed lookup makes the result ambiguous.
pub fn recover_place_result<T>(error: ExchangeError, lookup: Result<Option<T>, ExchangeError>) -> (r:
    Result<T, ExchangeError>)
    ensures
        match lookup {
            Ok(Some(t)) => r == Ok::<T, ExchangeError>(t),
            Ok(None) => r matches Err(x) && x@ == error@,
            Err(q) => r matches Err(x) && x@ == ambiguous_place_error(error@, q@),
        },
{
    match lookup {
        Ok(Some(found)) => Ok(found),
        Ok(None) => Err(error),
        Err(query_error) => {
            let mut m = String::new();
            push_str(&mut m, "bitget place result is ambiguous (");
            let first = error.to_text();
            push_str(&mut m, first.as_str());
            push_str(&mut m, "); clientOid confirmation failed: ");
            let second = query_error.to_text();
            push_str(&mut m, second.as_str());
            Err(ExchangeError::Network(m))
        },
    }
}

} // verus!
