//! Bitget V3 / UTA WebSocket private trade channel: request ids, the flat
//! `{op, id, category, topic, args}` request envelope, the heartbeat, and the
//! login and trade responses, whose `code` may be a string or a number.

use vstd::prelude::*;
use vstd::utf8::{encode_utf8, is_ascii_chars, is_ascii_chars_encode_utf8};
use vstd::slice::slice_subrange;
use sha2::Digest;
use crate::error::{ErrorView, ExchangeError};
use crate::json::{
    decode_optional_text, decode_text_or_default, field, get, get_field, is_struct_shaped,
    json_document, member, number_i64, optional_text, parse_json, struct_shaped, text_or_default,
    JsonNumber, JsonValue,
};
use crate::bitget_uta_config::{category_ws_inst_type, BitgetUtaCategory};
use crate::json_out::{hex_digit, hex_of, push_text_member, quoted};
use crate::text::{
    int_text, int_to_string, nat_text, nat_to_string, push_char, push_str, str_eq, trim, trimmed,
};

verus! {

/// The longest request id, in bytes, that the venue accepts.
pub const MAX_REQUEST_ID_LEN: usize = 40;

/// The SHA-256 digest of `bytes`.
pub uninterp spec fn sha256_of(bytes: Seq<u8>) -> Seq<u8>;

/// Calls `sha2::Sha256::digest`. The contract names the digest of the bytes
/// and states its fixed 32-byte size; the digest itself is not stated.
#[verifier::external_body]
fn sha256_digest(bytes: &[u8]) -> (d: Vec<u8>)
    ensures
        d@ == sha256_of(bytes@),
        d@.len() == 32,
{
    sha2::Sha256::digest(bytes).to_vec()
}

/// One byte as two lower-case hex digits, high nibble first.
pub open spec fn hex_byte(b: u8) -> Seq<char> {
    seq![hex_digit((b / 16) as nat), hex_digit((b % 16) as nat)]
}

/// Bytes as lower-case hex text.
pub open spec fn hex_text(bytes: Seq<u8>) -> Seq<char>
    decreases bytes.len(),
{
    if bytes.len() == 0 {
        Seq::empty()
    } else {
        hex_text(bytes.drop_last()) + hex_byte(bytes.last())
    }
}

/// Bytes as lower-case hex text, two digits per byte, high nibble first
/// (what `hex::encode` writes).
fn hex_encode(bytes: &[u8]) -> (s: String)
    ensures
        s@ == hex_text(bytes@),
{
    let n = bytes.len();
    let mut out = String::new();
    let mut i: usize = 0;
    while i < n
        invariant
            n == bytes@.len(),
            i <= n,
            out@ == hex_text(bytes@.subrange(0, i as int)),
        decreases n - i,
    {
        let b = bytes[i];
        push_char(&mut out, hex_of((b / 16) as u32));
        push_char(&mut out, hex_of((b % 16) as u32));
        proof {
            let next = bytes@.subrange(0, i + 1);
            assert(next.drop_last() =~= bytes@.subrange(0, i as int));
            assert(next.last() == b);
            assert(out@ =~= hex_text(next));
        }
        i = i + 1;
    }
    assert(bytes@.subrange(0, n as int) =~= bytes@);
    out
}

proof fn lemma_hex_text(bytes: Seq<u8>)
    ensures
        hex_text(bytes).len() == 2 * bytes.len(),
        is_ascii_chars(hex_text(bytes)),
    decreases bytes.len(),
{
    if bytes.len() > 0 {
        lemma_hex_text(bytes.drop_last());
        let b = bytes.last();
        let h = hex_byte(b);
        assert(is_ascii_chars(h)) by {
            assert((b / 16) < 16);
            assert((b % 16) < 16);
        }
        let prev = hex_text(bytes.drop_last());
        assert(hex_text(bytes) == prev + h);
        assert forall|i| 0 <= i < hex_text(bytes).len() implies '\0' <= #[trigger] hex_text(
            bytes,
        )[i] <= '\u{7f}' by {
            if i < prev.len() {
                assert(hex_text(bytes)[i] == prev[i]);
            } else {
                assert(hex_text(bytes)[i] == h[i - prev.len()]);
            }
        }
    }
}

/// The error for a request id that is empty once trimmed.
pub open spec fn blank_request_id_error() -> ErrorView {
    ErrorView::Api {
        exchange: "bitget"@,
        code: "validation"@,
        message: "bitget uta ws request id must be non-empty"@,
    }
}

/// The id sent for a caller's request id: the id trimmed, or, when that
/// exceeds the byte limit, `bg-` and the hex of the first 8 bytes of its
/// SHA-256 digest.
pub open spec fn request_id_of(id: Seq<char>) -> Result<Seq<char>, ErrorView> {
    let t = trim(id);
    if t.len() == 0 {
        Err(blank_request_id_error())
    } else if encode_utf8(t).len() <= MAX_REQUEST_ID_LEN {
        Ok(t)
    } else {
        Ok("bg-"@ + hex_text(sha256_of(encode_utf8(t)).subrange(0, 8)))
    }
}

/// The id to send for a caller's request id. Every id it accepts is
/// non-empty and fits the venue's byte limit.
pub fn checked_request_id(id: &str) -> (r: Result<String, ExchangeError>)
    ensures
        match r {
            Ok(s) => request_id_of(id@) == Ok::<Seq<char>, ErrorView>(s@),
            Err(e) => request_id_of(id@) == Err::<Seq<char>, ErrorView>(e@),
        },
        r matches Ok(s) ==> s@.len() > 0 && encode_utf8(s@).len() <= MAX_REQUEST_ID_LEN,
{
    let t = trimmed(id);
    if t.as_str().is_empty() {
        return Err(
            ExchangeError::Api {
                exchange: "bitget".to_owned(),
                code: "validation".to_owned(),
                message: "bitget uta ws request id must be non-empty".to_owned(),
            },
        );
    }
    let bytes = t.as_str().as_bytes();
    if bytes.len() <= MAX_REQUEST_ID_LEN {
        return Ok(t);
    }
    let digest = sha256_digest(bytes);
    let prefix = slice_subrange(digest.as_slice(), 0, 8);
    let hex = hex_encode(prefix);
    let mut out = String::new();
    push_str(&mut out, "bg-");
    push_str(&mut out, hex.as_str());
    proof {
        reveal_strlit("bg-");
        lemma_hex_text(prefix@);
        assert(is_ascii_chars("bg-"@));
        assert(is_ascii_chars(out@)) by {
            assert forall|i| 0 <= i < out@.len() implies '\0' <= #[trigger] out@[i] <= '\u{7f}' by {
                if i < 3 {
                    assert(out@[i] == "bg-"@[i]);
                } else {
                    assert(out@[i] == hex@[i - 3]);
                }
            }
        }
        is_ascii_chars_encode_utf8(out@);
    }
    Ok(out)
}

/// The `code` member of a response as the logic reads it: a string, a
/// number, or anything else (absent, `null`, a boolean, an array, an object).
#[derive(Debug)]
pub enum ResponseCode {
    Text(String),
    Number(JsonNumber),
    Other,
}

pub ghost enum ResponseCodeView {
    Text(Seq<char>),
    Number(JsonNumber),
    Other,
}

impl View for ResponseCode {
    type V = ResponseCodeView;

    open spec fn view(&self) -> ResponseCodeView {
        match self {
            ResponseCode::Text(s) => ResponseCodeView::Text(s@),
            ResponseCode::Number(n) => ResponseCodeView::Number(*n),
            ResponseCode::Other => ResponseCodeView::Other,
        }
    }
}

/// The code read from a `code` member.
pub open spec fn code_of(x: Option<JsonValue>) -> ResponseCodeView {
    match x {
        Some(JsonValue::Str(s)) => ResponseCodeView::Text(s@),
        Some(JsonValue::Number(n)) => ResponseCodeView::Number(n),
        _ => ResponseCodeView::Other,
    }
}

/// A successful code: the string `0` or `00000`, or a number that reads as
/// the integer 0.
pub open spec fn code_success(c: ResponseCodeView) -> bool {
    match c {
        ResponseCodeView::Text(s) => s == "0"@ || s == "00000"@,
        ResponseCodeView::Number(n) => number_i64(JsonValue::Number(n)) == Some(0i64),
        ResponseCodeView::Other => false,
    }
}

/// The code as reported in an API error: a string as it is, a number as it
/// is written, anything else as `unknown`.
pub open spec fn code_text_of(c: ResponseCodeView) -> Seq<char> {
    match c {
        ResponseCodeView::Text(s) => s,
        ResponseCodeView::Number(JsonNumber::PosInt(u)) => nat_text(u as nat),
        ResponseCodeView::Number(JsonNumber::NegInt(i)) => int_text(i as int),
        ResponseCodeView::Number(JsonNumber::Float(t)) => t@,
        ResponseCodeView::Other => "unknown"@,
    }
}

fn clone_number(n: &JsonNumber) -> (r: JsonNumber)
    ensures
        r == *n,
{
    match n {
        JsonNumber::PosInt(u) => JsonNumber::PosInt(*u),
        JsonNumber::NegInt(i) => JsonNumber::NegInt(*i),
        JsonNumber::Float(t) => {
            let c = t.clone();
            assert(c@ == t@);
            assert(c == *t);
            JsonNumber::Float(c)
        },
    }
}

fn read_code(x: Option<&JsonValue>) -> (r: ResponseCode)
    ensures
        r@ == code_of(crate::json::opt(x)),
{
    match x {
        Some(JsonValue::Str(s)) => ResponseCode::Text(s.clone()),
        Some(JsonValue::Number(n)) => ResponseCode::Number(clone_number(n)),
        _ => ResponseCode::Other,
    }
}

/// Whether a code means success.
pub fn code_is_success(code: &ResponseCode) -> (r: bool)
    ensures
        r == code_success(code@),
{
    match code {
        ResponseCode::Text(s) => str_eq(s.as_str(), "0") || str_eq(s.as_str(), "00000"),
        ResponseCode::Number(JsonNumber::PosInt(u)) => *u == 0,
        ResponseCode::Number(JsonNumber::NegInt(i)) => *i == 0,
        ResponseCode::Number(JsonNumber::Float(_)) => false,
        ResponseCode::Other => false,
    }
}

/// The code as reported in an API error.
pub fn code_text(code: &ResponseCode) -> (r: String)
    ensures
        r@ == code_text_of(code@),
{
    match code {
        ResponseCode::Text(s) => s.clone(),
        ResponseCode::Number(JsonNumber::PosInt(u)) => nat_to_string(*u),
        ResponseCode::Number(JsonNumber::NegInt(i)) => int_to_string(*i),
        ResponseCode::Number(JsonNumber::Float(t)) => t.clone(),
        ResponseCode::Other => "unknown".to_owned(),
    }
}

/// The identifiers that an order acknowledgement carries.
#[derive(Debug)]
pub struct UtaOrderAckRow {
    pub order_id: String,
    pub client_oid: String,
}

pub ghost struct AckRowView {
    pub order_id: Seq<char>,
    pub client_oid: Seq<char>,
}

impl View for UtaOrderAckRow {
    type V = AckRowView;

    open spec fn view(&self) -> AckRowView {
        AckRowView { order_id: self.order_id@, client_oid: self.client_oid@ }
    }
}

/// A string member of a row; empty when absent or not a string.
pub open spec fn string_field_of(row: JsonValue, key: Seq<char>) -> Seq<char> {
    match member(row, key) {
        Some(JsonValue::Str(s)) => s@,
        _ => Seq::empty(),
    }
}

/// The acknowledgement read from one row of parameters.
pub open spec fn ack_row_of(row: JsonValue) -> AckRowView {
    AckRowView {
        order_id: string_field_of(row, "orderId"@),
        client_oid: string_field_of(row, "clientOid"@),
    }
}

/// A defaulted list of parameter rows: absent is empty; otherwise an array
/// whose elements are all objects.
pub open spec fn ack_rows_of(x: Option<JsonValue>) -> Option<Seq<AckRowView>> {
    match x {
        None => Some(Seq::empty()),
        Some(JsonValue::Array(items)) => if forall|i: int|
            0 <= i < items@.len() ==> (#[trigger] items@[i]) is Object {
            Some(items@.map_values(|row: JsonValue| ack_row_of(row)))
        } else {
            None
        },
        Some(_) => None,
    }
}

fn string_field(row: &JsonValue, key: &str) -> (r: String)
    ensures
        r@ == string_field_of(*row, key@),
{
    match get(row, key) {
        Some(JsonValue::Str(s)) => s.clone(),
        _ => String::new(),
    }
}

/// The acknowledgement read from one row of parameters.
pub fn row_from_params(row: &JsonValue) -> (r: UtaOrderAckRow)
    ensures
        r@ == ack_row_of(*row),
{
    UtaOrderAckRow { order_id: string_field(row, "orderId"), client_oid: string_field(row, "clientOid") }
}

fn read_rows(x: Option<&JsonValue>) -> (r: Option<Vec<UtaOrderAckRow>>)
    ensures
        match r {
            Some(rows) => ack_rows_of(crate::json::opt(x)) == Some(
                rows@.map_values(|a: UtaOrderAckRow| a@),
            ),
            None => ack_rows_of(crate::json::opt(x)).is_none(),
        },
{
    match x {
        None => {
            let rows: Vec<UtaOrderAckRow> = Vec::new();
            assert(rows@.map_values(|a: UtaOrderAckRow| a@) =~= Seq::<AckRowView>::empty());
            Some(rows)
        },
        Some(JsonValue::Array(items)) => {
            let mut rows: Vec<UtaOrderAckRow> = Vec::new();
            let n = items.len();
            let mut i: usize = 0;
            while i < n
                invariant
                    crate::json::opt(x) == Some(JsonValue::Array(*items)),
                    n == items@.len(),
                    i <= n,
                    rows@.len() == i,
                    forall|k: int| 0 <= k < i ==> (#[trigger] items@[k]) is Object,
                    forall|k: int| 0 <= k < i ==> (#[trigger] rows@[k])@ == ack_row_of(items@[k]),
                decreases n - i,
            {
                match &items[i] {
                    JsonValue::Object(_) => {},
                    _ => {
                        assert(!(items@[i as int] is Object));
                        return None;
                    },
                }
                rows.push(row_from_params(&items[i]));
                i = i + 1;
            }
            assert(rows@.map_values(|a: UtaOrderAckRow| a@) =~= items@.map_values(
                |row: JsonValue| ack_row_of(row),
            ));
            Some(rows)
        },
        Some(_) => None,
    }
}

/// A trade response envelope: `{event, op, id, topic, code, msg, args,
/// data}`, every member defaulted. The acknowledgement rows sit in `args`;
/// older examples put them in `data`.
#[derive(Debug)]
pub struct TradeResponse {
    pub event: String,
    pub op: String,
    pub id: String,
    pub topic: String,
    pub code: ResponseCode,
    pub msg: String,
    pub args: Vec<UtaOrderAckRow>,
    pub data: Vec<UtaOrderAckRow>,
}

pub ghost struct TradeResponseView {
    pub event: Seq<char>,
    pub op: Seq<char>,
    pub id: Seq<char>,
    pub topic: Seq<char>,
    pub code: ResponseCodeView,
    pub msg: Seq<char>,
    pub args: Seq<AckRowView>,
    pub data: Seq<AckRowView>,
}

impl View for TradeResponse {
    type V = TradeResponseView;

    open spec fn view(&self) -> TradeResponseView {
        TradeResponseView {
            event: self.event@,
            op: self.op@,
            id: self.id@,
            topic: self.topic@,
            code: self.code@,
            msg: self.msg@,
            args: self.args@.map_values(|a: UtaOrderAckRow| a@),
            data: self.data@.map_values(|a: UtaOrderAckRow| a@),
        }
    }
}

/// The trade response read from a JSON document.
pub open spec fn trade_response_of(v: JsonValue) -> Option<TradeResponseView> {
    let event = text_or_default(field(v, 0, "event"@));
    let op = text_or_default(field(v, 1, "op"@));
    let id = text_or_default(field(v, 2, "id"@));
    let topic = text_or_default(field(v, 3, "topic"@));
    let msg = text_or_default(field(v, 5, "msg"@));
    let args = ack_rows_of(field(v, 6, "args"@));
    let data = ack_rows_of(field(v, 7, "data"@));
    if struct_shaped(v, 8) && event is Ok && op is Ok && id is Ok && topic is Ok && msg is Ok
        && args is Some && data is Some {
        Some(
            TradeResponseView {
                event: event->Ok_0,
                op: op->Ok_0,
                id: id->Ok_0,
                topic: topic->Ok_0,
                code: code_of(field(v, 4, "code"@)),
                msg: msg->Ok_0,
                args: args->Some_0,
                data: data->Some_0,
            },
        )
    } else {
        None
    }
}

/// The error for a trade response that cannot be read.
pub open spec fn trade_response_error(text: Seq<char>) -> ErrorView {
    ErrorView::Parse("bitget uta ws trade response: invalid payload; body="@ + text)
}

/// The trade response read from a text.
pub open spec fn trade_response_from(text: Seq<char>) -> Result<TradeResponseView, ErrorView> {
    match json_document(text) {
        Some(doc) => match trade_response_of(doc) {
            Some(r) => Ok(r),
            None => Err(trade_response_error(text)),
        },
        None => Err(trade_response_error(text)),
    }
}

fn text_member(v: &JsonValue, index: usize, key: &str) -> (r: Result<String, ()>)
    ensures
        match r {
            Ok(s) => text_or_default(field(*v, index as nat, key@)) == Ok::<Seq<char>, ()>(s@),
            Err(_) => text_or_default(field(*v, index as nat, key@)).is_err(),
        },
{
    decode_text_or_default(get_field(v, index, key))
}

fn decode_trade_response(v: &JsonValue) -> (r: Option<TradeResponse>)
    ensures
        match r {
            Some(t) => trade_response_of(*v) == Some(t@),
            None => trade_response_of(*v).is_none(),
        },
{
    if !is_struct_shaped(v, 8) {
        return None;
    }
    let event = match text_member(v, 0, "event") {
        Ok(t) => t,
        Err(_) => {
            return None;
        },
    };
    let op = match text_member(v, 1, "op") {
        Ok(t) => t,
        Err(_) => {
            return None;
        },
    };
    let id = match text_member(v, 2, "id") {
        Ok(t) => t,
        Err(_) => {
            return None;
        },
    };
    let topic = match text_member(v, 3, "topic") {
        Ok(t) => t,
        Err(_) => {
            return None;
        },
    };
    let code = read_code(get_field(v, 4, "code"));
    let msg = match text_member(v, 5, "msg") {
        Ok(t) => t,
        Err(_) => {
            return None;
        },
    };
    let args = match read_rows(get_field(v, 6, "args")) {
        Some(rows) => rows,
        None => {
            return None;
        },
    };
    let data = match read_rows(get_field(v, 7, "data")) {
        Some(rows) => rows,
        None => {
            return None;
        },
    };
    Some(TradeResponse { event, op, id, topic, code, msg, args, data })
}

fn body_error(prefix: &str, text: &str) -> (e: ExchangeError)
    ensures
        e@ == ErrorView::Parse(prefix@ + text@),
{
    let mut m = String::new();
    push_str(&mut m, prefix);
    push_str(&mut m, text);
    ExchangeError::Parse(m)
}

/// Reads a trade response.
pub fn parse_trade_response(text: &str) -> (r: Result<TradeResponse, ExchangeError>)
    ensures
        match r {
            Ok(t) => trade_response_from(text@) == Ok::<TradeResponseView, ErrorView>(t@),
            Err(e) => trade_response_from(text@) == Err::<TradeResponseView, ErrorView>(e@),
        },
{
    match parse_json(text) {
        Some(doc) => match decode_trade_response(&doc) {
            Some(t) => Ok(t),
            None => Err(body_error("bitget uta ws trade response: invalid payload; body=", text)),
        },
        None => Err(body_error("bitget uta ws trade response: invalid payload; body=", text)),
    }
}

/// The operation of every trade request.
pub open spec fn op_trade() -> Seq<char> {
    "trade"@
}

/// Whether a response answers the request with `id` on `topic`: the ids
/// agree, and either it is an error event whose topic is empty or the
/// request's, or it is a trade envelope (by `event` or by `op`) on the
/// request's topic.
pub open spec fn matches_of(r: TradeResponseView, id: Seq<char>, topic: Seq<char>) -> bool {
    if r.id != id {
        false
    } else if r.event == "error"@ {
        r.topic.len() == 0 || r.topic == topic
    } else {
        (r.event == op_trade() || r.op == op_trade()) && r.topic == topic
    }
}

/// What a trade response gives: on a successful code, the first row of
/// `args`, or of `data` when `args` is empty; the venue's error otherwise.
pub open spec fn ack_result_of(r: TradeResponseView) -> Result<AckRowView, ErrorView> {
    if code_success(r.code) {
        let rows = if r.args.len() == 0 {
            r.data
        } else {
            r.args
        };
        if rows.len() > 0 {
            Ok(rows[0])
        } else {
            Err(ErrorView::Parse("bitget uta ws missing ack row"@))
        }
    } else {
        Err(ErrorView::Api { exchange: "bitget"@, code: code_text_of(r.code), message: r.msg })
    }
}

/// The id and topic that a response must carry to answer a request.
#[derive(Debug)]
pub struct WsRequestMatcher {
    pub id: String,
    pub topic: &'static str,
}

impl TradeResponse {
    /// Whether this response answers the request that `matcher` describes.
    pub fn matches_parts(&self, matcher: &WsRequestMatcher) -> (r: bool)
        ensures
            r == matches_of(self@, matcher.id@, matcher.topic@),
    {
        if !str_eq(self.id.as_str(), matcher.id.as_str()) {
            return false;
        }
        if str_eq(self.event.as_str(), "error") {
            return self.topic.as_str().is_empty() || str_eq(self.topic.as_str(), matcher.topic);
        }
        let envelope_is_trade = str_eq(self.event.as_str(), "trade") || str_eq(
            self.op.as_str(),
            "trade",
        );
        envelope_is_trade && str_eq(self.topic.as_str(), matcher.topic)
    }

    /// The acknowledgement of a successful response; the venue's error
    /// otherwise.
    pub fn into_result(self) -> (r: Result<UtaOrderAckRow, ExchangeError>)
        ensures
            match r {
                Ok(row) => ack_result_of(self@) == Ok::<AckRowView, ErrorView>(row@),
                Err(e) => ack_result_of(self@) == Err::<AckRowView, ErrorView>(e@),
            },
    {
        let ghost v = self@;
        if code_is_success(&self.code) {
            let mut rows = if self.args.len() == 0 {
                self.data
            } else {
                self.args
            };
            assert(rows@.map_values(|a: UtaOrderAckRow| a@) == (if v.args.len() == 0 {
                v.data
            } else {
                v.args
            }));
            if rows.len() > 0 {
                let row = rows.remove(0);
                Ok(row)
            } else {
                Err(ExchangeError::Parse("bitget uta ws missing ack row".to_owned()))
            }
        } else {
            let code = code_text(&self.code);
            Err(ExchangeError::Api { exchange: "bitget".to_owned(), code, message: self.msg })
        }
    }
}

/// A response answers a request only if it carries the request's id and,
/// unless it is an error event without a topic, the request's topic.
pub proof fn responses_answer_only_their_own_request(
    r: TradeResponseView,
    id: Seq<char>,
    topic: Seq<char>,
)
    ensures
        matches_of(r, id, topic) ==> r.id == id && (r.topic == topic || (r.event == "error"@
            && r.topic.len() == 0)),
        r.id == id && r.event == op_trade() && r.topic == topic ==> matches_of(r, id, topic),
{
}

/// A trade response acknowledges an order only under a successful code and
/// with at least one row; under any other code it reports that code and
/// message.
pub proof fn only_successful_codes_acknowledge(r: TradeResponseView)
    ensures
        ack_result_of(r) is Ok <==> code_success(r.code) && (r.args.len() > 0 || r.data.len()
            > 0),
        !code_success(r.code) ==> ack_result_of(r) == Err::<AckRowView, ErrorView>(
            ErrorView::Api { exchange: "bitget"@, code: code_text_of(r.code), message: r.msg },
        ),
{
}

/// A login response: `{event, code, msg}`, where `event` is optional and
/// the other two are defaulted.
#[derive(Debug)]
pub struct LoginResponse {
    pub event: Option<String>,
    pub code: ResponseCode,
    pub msg: String,
}

pub ghost struct LoginResponseView {
    pub event: Option<Seq<char>>,
    pub code: ResponseCodeView,
    pub msg: Seq<char>,
}

impl View for LoginResponse {
    type V = LoginResponseView;

    open spec fn view(&self) -> LoginResponseView {
        LoginResponseView {
            event: match self.event {
                Some(e) => Some(e@),
                None => None,
            },
            code: self.code@,
            msg: self.msg@,
        }
    }
}

/// The login response read from a JSON document. In the array form the
/// `event` element, which has no default, must be present.
pub open spec fn login_response_of(v: JsonValue) -> Option<LoginResponseView> {
    let event = optional_text(field(v, 0, "event"@));
    let msg = text_or_default(field(v, 2, "msg"@));
    let event_given = match v {
        JsonValue::Array(items) => items@.len() >= 1,
        _ => true,
    };
    if struct_shaped(v, 3) && event_given && event is Ok && msg is Ok {
        Some(
            LoginResponseView {
                event: event->Ok_0,
                code: code_of(field(v, 1, "code"@)),
                msg: msg->Ok_0,
            },
        )
    } else {
        None
    }
}

/// The error for a login response that cannot be read.
pub open spec fn login_response_error(text: Seq<char>) -> ErrorView {
    ErrorView::Parse("bitget uta ws login response: invalid payload; body="@ + text)
}

/// The login response read from a text.
pub open spec fn login_response_from(text: Seq<char>) -> Result<LoginResponseView, ErrorView> {
    match json_document(text) {
        Some(doc) => match login_response_of(doc) {
            Some(r) => Ok(r),
            None => Err(login_response_error(text)),
        },
        None => Err(login_response_error(text)),
    }
}

fn decode_login_response(v: &JsonValue) -> (r: Option<LoginResponse>)
    ensures
        match r {
            Some(l) => login_response_of(*v) == Some(l@),
            None => login_response_of(*v).is_none(),
        },
{
    if !is_struct_shaped(v, 3) {
        return None;
    }
    match v {
        JsonValue::Array(items) => {
            if items.len() < 1 {
                return None;
            }
        },
        _ => {},
    }
    let event = match decode_optional_text(get_field(v, 0, "event")) {
        Ok(e) => e,
        Err(_) => {
            return None;
        },
    };
    let code = read_code(get_field(v, 1, "code"));
    let msg = match text_member(v, 2, "msg") {
        Ok(t) => t,
        Err(_) => {
            return None;
        },
    };
    Some(LoginResponse { event, code, msg })
}

/// Reads a login response.
pub fn parse_login_response(text: &str) -> (r: Result<LoginResponse, ExchangeError>)
    ensures
        match r {
            Ok(l) => login_response_from(text@) == Ok::<LoginResponseView, ErrorView>(l@),
            Err(e) => login_response_from(text@) == Err::<LoginResponseView, ErrorView>(e@),
        },
{
    match parse_json(text) {
        Some(doc) => match decode_login_response(&doc) {
            Some(l) => Ok(l),
            None => Err(body_error("bitget uta ws login response: invalid payload; body=", text)),
        },
        None => Err(body_error("bitget uta ws login response: invalid payload; body=", text)),
    }
}

/// What a login response gives: success on a successful code, the venue's
/// error otherwise.
pub open spec fn login_result_of(r: LoginResponseView) -> Result<(), ErrorView> {
    if code_success(r.code) {
        Ok(())
    } else {
        Err(ErrorView::Api { exchange: "bitget"@, code: code_text_of(r.code), message: r.msg })
    }
}

impl LoginResponse {
    /// Success on a successful code; the venue's error otherwise.
    pub fn into_result(self) -> (r: Result<(), ExchangeError>)
        ensures
            match r {
                Ok(()) => login_result_of(self@) == Ok::<(), ErrorView>(()),
                Err(e) => login_result_of(self@) == Err::<(), ErrorView>(e@),
            },
    {
        if code_is_success(&self.code) {
            Ok(())
        } else {
            let code = code_text(&self.code);
            Err(ExchangeError::Api { exchange: "bitget".to_owned(), code, message: self.msg })
        }
    }
}

/// How the session reads a message while it waits for the login answer:
/// a message whose `event` is not `login` is not the answer (`false`); the
/// answer completes the login (`true`) or fails it with the venue's error.
pub open spec fn login_outcome_of(text: Seq<char>) -> Result<bool, ErrorView> {
    match login_response_from(text) {
        Err(e) => Err(e),
        Ok(r) => if r.event != Some("login"@) {
            Ok(false)
        } else {
            match login_result_of(r) {
                Ok(()) => Ok(true),
                Err(e) => Err(e),
            }
        },
    }
}

/// Reads a message received while waiting for the login answer.
pub fn login_outcome(text: &str) -> (r: Result<bool, ExchangeError>)
    ensures
        match r {
            Ok(b) => login_outcome_of(text@) == Ok::<bool, ErrorView>(b),
            Err(e) => login_outcome_of(text@) == Err::<bool, ErrorView>(e@),
        },
{
    let response = match parse_login_response(text) {
        Ok(r) => r,
        Err(e) => {
            return Err(e);
        },
    };
    let is_login = match &response.event {
        Some(e) => str_eq(e.as_str(), "login"),
        None => false,
    };
    if !is_login {
        return Ok(false);
    }
    match response.into_result() {
        Ok(()) => Ok(true),
        Err(e) => Err(e),
    }
}

/// The text frame the trade session sends as its heartbeat.
pub fn bitget_trade_heartbeat() -> (r: String)
    ensures
        r@ == "ping"@,
{
    "ping".to_owned()
}

/// Whether a text frame answers the heartbeat: `pong`, surrounding white
/// space aside.
pub fn bitget_trade_heartbeat_response(text: &str) -> (r: bool)
    ensures
        r == (trim(text@) == "pong"@),
{
    let t = trimmed(text);
    str_eq(t.as_str(), "pong")
}

/// A trade request: the flat V3 envelope `{op, id, category, topic,
/// args: [params]}`, with the order body `params` held as JSON object text.
#[derive(Debug)]
pub struct WsTradeRequest {
    pub op: &'static str,
    pub id: String,
    pub category: &'static str,
    pub topic: &'static str,
    pub params: String,
}

/// The JSON text of a trade request, members in declaration order.
pub open spec fn trade_request_json(
    op: Seq<char>,
    id: Seq<char>,
    category: Seq<char>,
    topic: Seq<char>,
    params: Seq<char>,
) -> Seq<char> {
    seq!['{'] + quoted("op"@) + seq![':'] + quoted(op) + seq![','] + quoted("id"@) + seq![':']
        + quoted(id) + seq![','] + quoted("category"@) + seq![':'] + quoted(category) + seq![',']
        + quoted("topic"@) + seq![':'] + quoted(topic) + seq![','] + quoted("args"@) + seq![
        ':',
        '[',
    ] + params + seq![']', '}']
}

/// A trade request for `topic` in `category`, carrying `params`.
pub fn trade_request(
    id: String,
    category: BitgetUtaCategory,
    topic: &'static str,
    params: String,
) -> (r: WsTradeRequest)
    ensures
        r.op@ == op_trade(),
        r.id == id,
        r.category@ == category_ws_inst_type(category),
        r.topic == topic,
        r.params == params,
{
    WsTradeRequest { op: "trade", id, category: category.as_ws_inst_type(), topic, params }
}

/// A trade request whose id is the checked form of the caller's
/// `request_id`; the id's error when it is blank.
pub fn trade_request_for(
    request_id: &str,
    category: BitgetUtaCategory,
    topic: &'static str,
    params: String,
) -> (r: Result<WsTradeRequest, ExchangeError>)
    ensures
        match r {
            Ok(q) => request_id_of(request_id@) == Ok::<Seq<char>, ErrorView>(q.id@) && q.op@
                == op_trade() && q.category@ == category_ws_inst_type(category) && q.topic
                == topic && q.params == params,
            Err(e) => request_id_of(request_id@) == Err::<Seq<char>, ErrorView>(e@),
        },
{
    match checked_request_id(request_id) {
        Ok(id) => Ok(trade_request(id, category, topic, params)),
        Err(e) => Err(e),
    }
}

/// What a response to `request` must carry.
pub fn request_matcher(request: &WsTradeRequest) -> (m: WsRequestMatcher)
    ensures
        m.id@ == request.id@,
        m.topic == request.topic,
{
    WsRequestMatcher { id: request.id.clone(), topic: request.topic }
}

impl WsTradeRequest {
    /// The request as JSON text.
    pub fn to_json(&self) -> (r: String)
        ensures
            r@ == trade_request_json(
                self.op@,
                self.id@,
                self.category@,
                self.topic@,
                self.params@,
            ),
    {
        let mut out = String::new();
        push_char(&mut out, '{');
        push_text_member(&mut out, "op", self.op);
        push_char(&mut out, ',');
        push_text_member(&mut out, "id", self.id.as_str());
        push_char(&mut out, ',');
        push_text_member(&mut out, "category", self.category);
        push_char(&mut out, ',');
        push_text_member(&mut out, "topic", self.topic);
        push_char(&mut out, ',');
        crate::json_out::push_quoted(&mut out, "args");
        push_char(&mut out, ':');
        push_char(&mut out, '[');
        push_str(&mut out, self.params.as_str());
        push_char(&mut out, ']');
        push_char(&mut out, '}');
        assert(out@ =~= trade_request_json(
            self.op@,
            self.id@,
            self.category@,
            self.topic@,
            self.params@,
        ));
        out
    }
}

/// The JSON text of a login request with its one argument object.
pub open spec fn login_request_json(
    api_key: Seq<char>,
    passphrase: Seq<char>,
    timestamp: Seq<char>,
    sign: Seq<char>,
) -> Seq<char> {
    seq!['{'] + quoted("op"@) + seq![':'] + quoted("login"@) + seq![','] + quoted("args"@) + seq![
        ':',
        '[',
        '{',
    ] + quoted("apiKey"@) + seq![':'] + quoted(api_key) + seq![','] + quoted("passphrase"@)
        + seq![':'] + quoted(passphrase) + seq![','] + quoted("timestamp"@) + seq![':'] + quoted(
        timestamp,
    ) + seq![','] + quoted("sign"@) + seq![':'] + quoted(sign) + seq!['}', ']', '}']
}

/// The login request for a key, its passphrase, the request time in
/// milliseconds as text, and the signature of that time.
pub fn login_request(api_key: &str, passphrase: &str, timestamp: &str, sign: &str) -> (r: String)
    ensures
        r@ == login_request_json(api_key@, passphrase@, timestamp@, sign@),
{
    let mut out = String::new();
    push_char(&mut out, '{');
    push_text_member(&mut out, "op", "login");
    push_char(&mut out, ',');
    crate::json_out::push_quoted(&mut out, "args");
    push_char(&mut out, ':');
    push_char(&mut out, '[');
    push_char(&mut out, '{');
    push_text_member(&mut out, "apiKey", api_key);
    push_char(&mut out, ',');
    push_text_member(&mut out, "passphrase", passphrase);
    push_char(&mut out, ',');
    push_text_member(&mut out, "timestamp", timestamp);
    push_char(&mut out, ',');
    push_text_member(&mut out, "sign", sign);
    push_char(&mut out, '}');
    push_char(&mut out, ']');
    push_char(&mut out, '}');
    assert(out@ =~= login_request_json(api_key@, passphrase@, timestamp@, sign@));
    out
}

} // verus!
