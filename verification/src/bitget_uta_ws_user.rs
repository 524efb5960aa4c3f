//! Bitget V3 / UTA private WebSocket: subscription payloads and the control
//! frames (login / subscribe acknowledgements and rejections).
//!
//! All private topics are UTA-global and use exactly `{instType:"UTA",topic}`
//! with the singular topic names `account`, `order`, `position` and `fill`.

use vstd::prelude::*;
use crate::bitget_uta_config::PROD_WS_PRIVATE;
use crate::error::{ErrorView, ExchangeError};
use crate::json::{
    decode_text_or_default, get, is_object, json_document, member, number_i64, parse_json, read_i64,
    text_or_default, JsonValue,
};
use crate::bitget_uta_ws_trade::{login_request, login_request_json};
use crate::json_out::{push_text_member, quoted};
use crate::text::{
    blank, eq_ignore_ascii_case, eq_ignore_case, int_text, int_to_string, is_blank, push_char,
    push_str, str_eq, trim, trimmed,
};

verus! {

/// The private WebSocket endpoint.
pub const BITGET_PRIVATE_WS_URL: &'static str = PROD_WS_PRIVATE;

/// Credentials of a private WebSocket login.
#[derive(Debug)]
pub struct BitgetUserWsConfig<'a> {
    pub api_key: &'a str,
    pub api_secret: &'a str,
    pub passphrase: &'a str,
}

/// One argument of a private subscription.
#[derive(Debug)]
pub struct SubscriptionArg {
    inst_type: &'static str,
    topic: &'static str,
}

pub open spec fn uta() -> Seq<char> {
    "UTA"@
}

impl SubscriptionArg {
    pub closed spec fn inst_type_view(&self) -> Seq<char> {
        self.inst_type@
    }

    pub closed spec fn topic_view(&self) -> Seq<char> {
        self.topic@
    }

    /// The `account` topic.
    pub fn account() -> (r: Self)
        ensures
            r.inst_type_view() == uta(),
            r.topic_view() == "account"@,
    {
        SubscriptionArg { inst_type: "UTA", topic: "account" }
    }

    /// The `order` topic.
    pub fn order() -> (r: Self)
        ensures
            r.inst_type_view() == uta(),
            r.topic_view() == "order"@,
    {
        SubscriptionArg { inst_type: "UTA", topic: "order" }
    }

    /// The `position` topic.
    pub fn position() -> (r: Self)
        ensures
            r.inst_type_view() == uta(),
            r.topic_view() == "position"@,
    {
        SubscriptionArg { inst_type: "UTA", topic: "position" }
    }

    /// The `fill` topic.
    pub fn fill() -> (r: Self)
        ensures
            r.inst_type_view() == uta(),
            r.topic_view() == "fill"@,
    {
        SubscriptionArg { inst_type: "UTA", topic: "fill" }
    }

    fn push_json(&self, out: &mut String)
        ensures
            final(out)@ == old(out)@ + arg_json(self.inst_type_view(), self.topic_view()),
    {
        push_char(out, '{');
        push_text_member(out, "instType", self.inst_type);
        push_char(out, ',');
        push_text_member(out, "topic", self.topic);
        push_char(out, '}');
        assert(final(out)@ =~= old(out)@ + arg_json(self.inst_type_view(), self.topic_view()));
    }
}

/// The JSON object of one subscription argument.
pub open spec fn arg_json(inst_type: Seq<char>, topic: Seq<char>) -> Seq<char> {
    seq!['{'] + quoted("instType"@) + seq![':'] + quoted(inst_type) + seq![','] + quoted("topic"@)
        + seq![':'] + quoted(topic) + seq!['}']
}

pub open spec fn args_json(args: Seq<SubscriptionArg>) -> Seq<char>
    decreases args.len(),
{
    if args.len() == 0 {
        Seq::empty()
    } else if args.len() == 1 {
        arg_json(args[0].inst_type_view(), args[0].topic_view())
    } else {
        args_json(args.drop_last()) + seq![','] + arg_json(
            args.last().inst_type_view(),
            args.last().topic_view(),
        )
    }
}

/// The subscribe request `{"op":"subscribe","args":[...]}`.
pub open spec fn subscribe_json(args: Seq<SubscriptionArg>) -> Seq<char> {
    seq!['{'] + quoted("op"@) + seq![':'] + quoted("subscribe"@) + seq![','] + quoted("args"@)
        + seq![':', '['] + args_json(args) + seq![']', '}']
}

pub open spec fn empty_subscription_error() -> ErrorView {
    ErrorView::Parse("bitget uta ws subscribe requires at least one topic"@)
}

/// The subscribe request for `args`; at least one topic is required.
pub fn subscribe_payload(args: &[SubscriptionArg]) -> (r: Result<String, ExchangeError>)
    ensures
        match r {
            Ok(s) => args@.len() > 0 && s@ == subscribe_json(args@),
            Err(e) => args@.len() == 0 && e@ == empty_subscription_error(),
        },
{
    let n = args.len();
    if n == 0 {
        return Err(ExchangeError::Parse(
            "bitget uta ws subscribe requires at least one topic".to_owned(),
        ));
    }
    let mut out = String::new();
    push_char(&mut out, '{');
    push_text_member(&mut out, "op", "subscribe");
    push_char(&mut out, ',');
    push_quoted_key(&mut out, "args");
    push_char(&mut out, '[');
    let ghost start = out@;
    let mut i: usize = 0;
    while i < n
        invariant
            n == args@.len(),
            i <= n,
            out@ == start + args_json(args@.subrange(0, i as int)),
        decreases n - i,
    {
        if i > 0 {
            push_char(&mut out, ',');
        }
        args[i].push_json(&mut out);
        proof {
            let next = args@.subrange(0, i + 1);
            assert(next.drop_last() =~= args@.subrange(0, i as int));
            assert(next.last() == args@[i as int]);
            if i == 0 {
                assert(next.len() == 1);
                assert(next[0] == args@[0]);
            }
            assert(out@ =~= start + args_json(next));
        }
        i = i + 1;
    }
    assert(args@.subrange(0, n as int) =~= args@);
    push_char(&mut out, ']');
    push_char(&mut out, '}');
    assert(out@ =~= subscribe_json(args@));
    Ok(out)
}

fn push_quoted_key(out: &mut String, key: &str)
    ensures
        final(out)@ == old(out)@ + quoted(key@) + seq![':'],
{
    crate::json_out::push_quoted(out, key);
    push_char(out, ':');
    assert(final(out)@ =~= old(out)@ + quoted(key@) + seq![':']);
}

/// The private topics the user stream needs, in subscription order.
pub open spec fn private_topics() -> Seq<Seq<char>> {
    seq!["account"@, "order"@, "position"@, "fill"@]
}

/// The login request of the private stream for the configured key: the
/// request time in milliseconds, as text, and the signature of that time
/// come from the caller's clock and signer.
pub fn login_payload(cfg: BitgetUserWsConfig, timestamp: &str, sign: &str) -> (r: String)
    ensures
        r@ == login_request_json(cfg.api_key@, cfg.passphrase@, timestamp@, sign@),
{
    login_request(cfg.api_key, cfg.passphrase, timestamp, sign)
}

/// Subscribes to the private topics for balance, order, position and fill
/// updates.
pub fn subscribe_private_payload() -> (r: Result<String, ExchangeError>)
    ensures
        match r {
            Ok(s) => exists|args: Seq<SubscriptionArg>|
                {
                    &&& args.len() == 4
                    &&& forall|i: int|
                        0 <= i < 4 ==> (#[trigger] args[i]).inst_type_view() == uta()
                            && args[i].topic_view() == private_topics()[i]
                    &&& s@ == subscribe_json(args)
                },
            Err(_) => false,
        },
{
    let args = [
        SubscriptionArg::account(),
        SubscriptionArg::order(),
        SubscriptionArg::position(),
        SubscriptionArg::fill(),
    ];
    let r = subscribe_payload(&args);
    assert(args@.len() == 4);
    r
}

/// A control frame of the private stream.
#[derive(Debug)]
pub enum BitgetUserControl {
    Acknowledged { channel: String, request_id: Option<String> },
    Rejected {
        channel: String,
        request_id: Option<String>,
        authentication_failed: bool,
        error: String,
    },
}

pub ghost enum ControlView {
    Acknowledged { channel: Seq<char>, request_id: Option<Seq<char>> },
    Rejected {
        channel: Seq<char>,
        request_id: Option<Seq<char>>,
        authentication_failed: bool,
        error: Seq<char>,
    },
}

pub open spec fn opt_view(o: Option<String>) -> Option<Seq<char>> {
    match o {
        Some(s) => Some(s@),
        None => None,
    }
}

impl View for BitgetUserControl {
    type V = ControlView;

    open spec fn view(&self) -> ControlView {
        match self {
            BitgetUserControl::Acknowledged { channel, request_id } => ControlView::Acknowledged {
                channel: channel@,
                request_id: opt_view(*request_id),
            },
            BitgetUserControl::Rejected { channel, request_id, authentication_failed, error } =>
                ControlView::Rejected {
                channel: channel@,
                request_id: opt_view(*request_id),
                authentication_failed: *authentication_failed,
                error: error@,
            },
        }
    }
}

/// A heartbeat reply: `pong` in any case, surrounded by white space.
pub open spec fn is_pong(text: Seq<char>) -> bool {
    eq_ignore_case(trim(text), "pong"@)
}

pub fn is_heartbeat_pong(text: &str) -> (r: bool)
    ensures
        r == is_pong(text@),
{
    let t = trimmed(text);
    eq_ignore_ascii_case(t.as_str(), "pong")
}

/// A text trimmed, or nothing when blank.
pub open spec fn clean(value: Seq<char>) -> Option<Seq<char>> {
    if is_blank(value) {
        None
    } else {
        Some(trim(value))
    }
}

pub fn clean_text(value: &str) -> (r: Option<String>)
    ensures
        opt_view(r) == clean(value@),
{
    if blank(value) {
        None
    } else {
        Some(trimmed(value))
    }
}


/// The members of a control frame that the parser reads.
pub ghost struct ControlFrame {
    pub event: Seq<char>,
    pub code: Seq<char>,
    pub msg: Seq<char>,
    pub id: Seq<char>,
    pub topic: Seq<char>,
}

/// The `code` member: absent or `null` is empty, a string is itself, an
/// integer is its decimal text; anything else does not decode.
pub open spec fn control_code(x: Option<JsonValue>) -> Result<Seq<char>, ()> {
    match x {
        None => Ok(Seq::empty()),
        Some(JsonValue::Null) => Ok(Seq::empty()),
        Some(JsonValue::Str(s)) => Ok(s@),
        Some(v) => match number_i64(v) {
            Some(n) => Ok(int_text(n as int)),
            None => Err(()),
        },
    }
}

/// The `arg.topic` member; a present `arg` must be an object.
pub open spec fn control_topic(x: Option<JsonValue>) -> Result<Seq<char>, ()> {
    match x {
        None => Ok(Seq::empty()),
        Some(v) => if is_object(v) {
            text_or_default(member(v, "topic"@))
        } else {
            Err(())
        },
    }
}

/// A control frame decoded from a document: an object whose members have
/// the expected types.
pub open spec fn decode_control(doc: JsonValue) -> Option<ControlFrame> {
    if !is_object(doc) {
        None
    } else {
        match (
            text_or_default(member(doc, "event"@)),
            control_code(member(doc, "code"@)),
            text_or_default(member(doc, "msg"@)),
            text_or_default(member(doc, "id"@)),
            control_topic(member(doc, "arg"@)),
        ) {
            (Ok(event), Ok(code), Ok(msg), Ok(id), Ok(topic)) => Some(
                ControlFrame { event, code, msg, id, topic },
            ),
            _ => None,
        }
    }
}

/// What a decoded control frame means: nothing for events other than
/// `login`, `subscribe` and `error`; an acknowledgement for a login or
/// subscribe with an empty or zero code; a rejection otherwise.
pub open spec fn control_outcome(f: ControlFrame) -> Option<ControlView> {
    let event = trim(f.event);
    if event != "login"@ && event != "subscribe"@ && event != "error"@ {
        None
    } else {
        let code = f.code;
        let request_id = clean(f.id);
        let authentication_failed = event == "login"@ || code == "30005"@;
        let channel = match clean(f.topic) {
            Some(t) => t,
            None => if authentication_failed {
                "login"@
            } else {
                match request_id {
                    Some(r) => r,
                    None => event,
                }
            },
        };
        let ok_code = code.len() == 0 || code == "0"@;
        if (event == "login"@ || event == "subscribe"@) && ok_code {
            Some(ControlView::Acknowledged { channel, request_id })
        } else {
            let message = trim(f.msg);
            let error = if message.len() == 0 {
                "code="@ + code + "; event="@ + event
            } else {
                "code="@ + code + "; message="@ + message
            };
            Some(ControlView::Rejected { channel, request_id, authentication_failed, error })
        }
    }
}

/// A control frame means something exactly for the `login`, `subscribe`
/// and `error` events (around white space). A login or subscribe with an
/// empty or zero code is acknowledged; every other such frame, and every
/// `error` frame, is rejected. A rejection is an authentication failure
/// exactly for a login or the code `30005`, and a frame without a topic that
/// is about authentication speaks for the `login` channel.
pub proof fn control_frames_answer_their_event(f: ControlFrame)
    ensures
        control_outcome(f) is Some <==> (trim(f.event) == "login"@ || trim(f.event)
            == "subscribe"@ || trim(f.event) == "error"@),
        control_outcome(f) matches Some(ControlView::Acknowledged { .. }) <==> ((trim(f.event)
            == "login"@ || trim(f.event) == "subscribe"@) && (f.code.len() == 0 || f.code
            == "0"@)),
        control_outcome(f) matches Some(ControlView::Rejected { authentication_failed, .. })
            ==> (authentication_failed <==> (trim(f.event) == "login"@ || f.code == "30005"@)),
        clean(f.topic) is None && (trim(f.event) == "login"@ || f.code == "30005"@) ==> match
            control_outcome(f) {
            Some(ControlView::Acknowledged { channel, .. }) => channel == "login"@,
            Some(ControlView::Rejected { channel, .. }) => channel == "login"@,
            None => true,
        },
{
    reveal_strlit("login");
    reveal_strlit("subscribe");
    reveal_strlit("error");
    assert("login"@.len() == 5);
    assert("error"@.len() == 5);
    assert("subscribe"@.len() == 9);
    assert("login"@[0] != "error"@[0]);
}

/// The error reported for a frame that does not decode.
pub open spec fn control_decode_error(text: Seq<char>) -> ErrorView {
    ErrorView::Parse("bitget uta user ws control: invalid payload; body="@ + text)
}

/// The control frame of a decoded document, or nothing when it does not
/// decode.
fn decode_control_frame(doc: &JsonValue) -> (r: Option<(String, String, String, String, String)>)
    ensures
        match r {
            Some((event, code, msg, id, topic)) => decode_control(*doc) == Some(
                ControlFrame { event: event@, code: code@, msg: msg@, id: id@, topic: topic@ },
            ),
            None => decode_control(*doc).is_none(),
        },
{
    match doc {
        JsonValue::Object(_) => {},
        _ => return None,
    }
    let event = match decode_text_or_default(get(doc, "event")) {
        Ok(v) => v,
        Err(_) => return None,
    };
    let code = match get(doc, "code") {
        None => String::new(),
        Some(JsonValue::Null) => String::new(),
        Some(JsonValue::Str(s)) => s.clone(),
        Some(v) => match read_i64(v) {
            Some(n) => int_to_string(n),
            None => return None,
        },
    };
    let msg = match decode_text_or_default(get(doc, "msg")) {
        Ok(v) => v,
        Err(_) => return None,
    };
    let id = match decode_text_or_default(get(doc, "id")) {
        Ok(v) => v,
        Err(_) => return None,
    };
    let topic = match get(doc, "arg") {
        None => String::new(),
        Some(arg) => {
            match arg {
                JsonValue::Object(_) => {},
                _ => return None,
            }
            match decode_text_or_default(get(arg, "topic")) {
                Ok(v) => v,
                Err(_) => return None,
            }
        },
    };
    Some((event, code, msg, id, topic))
}

/// Reads a control frame of the private stream. Heartbeat replies and
/// events other than login, subscribe and error give nothing.
pub fn parse_user_control(text: &str) -> (r: Result<Option<BitgetUserControl>, ExchangeError>)
    ensures
        is_pong(text@) ==> r matches Ok(None),
        !is_pong(text@) ==> match json_document(text@) {
            None => r matches Err(e) && e@ == control_decode_error(text@),
            Some(doc) => match decode_control(doc) {
                None => r matches Err(e) && e@ == control_decode_error(text@),
                Some(f) => match r {
                    Ok(Some(c)) => control_outcome(f) == Some(c@),
                    Ok(None) => control_outcome(f).is_none(),
                    Err(_) => false,
                },
            },
        },
{
    if is_heartbeat_pong(text) {
        return Ok(None);
    }
    let mut message = String::new();
    push_str(&mut message, "bitget uta user ws control: invalid payload; body=");
    push_str(&mut message, text);
    let doc = match parse_json(text) {
        Some(d) => d,
        None => return Err(ExchangeError::Parse(message)),
    };
    let (event_raw, code, msg, id, topic) = match decode_control_frame(&doc) {
        Some(f) => f,
        None => return Err(ExchangeError::Parse(message)),
    };
    let event = trimmed(event_raw.as_str());
    let is_login = str_eq(event.as_str(), "login");
    let is_subscribe = str_eq(event.as_str(), "subscribe");
    let is_error = str_eq(event.as_str(), "error");
    if !is_login && !is_subscribe && !is_error {
        return Ok(None);
    }
    let request_id = clean_text(id.as_str());
    let authentication_failed = is_login || str_eq(code.as_str(), "30005");
    let channel = match clean_text(topic.as_str()) {
        Some(t) => t,
        None => {
            if authentication_failed {
                "login".to_owned()
            } else {
                match &request_id {
                    Some(r) => r.clone(),
                    None => event.clone(),
                }
            }
        },
    };
    let ok_code = code.unicode_len() == 0 || str_eq(code.as_str(), "0");
    if (is_login || is_subscribe) && ok_code {
        return Ok(Some(BitgetUserControl::Acknowledged { channel, request_id }));
    }
    let trimmed_msg = trimmed(msg.as_str());
    let mut error = String::new();
    push_str(&mut error, "code=");
    push_str(&mut error, code.as_str());
    if trimmed_msg.unicode_len() == 0 {
        push_str(&mut error, "; event=");
        push_str(&mut error, event.as_str());
    } else {
        push_str(&mut error, "; message=");
        push_str(&mut error, trimmed_msg.as_str());
    }
    Ok(Some(BitgetUserControl::Rejected { channel, request_id, authentication_failed, error }))
}

} // verus!
