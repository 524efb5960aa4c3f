//! Bitget REST response envelopes (V2 and V3 / UTA share this shape):
//! `{code, msg, data}` where the code `00000` means success.

use vstd::prelude::*;
use crate::error::{ErrorView, ExchangeError};
use crate::json::{
    decode_required_text_field, decode_text_field, field, is_struct_shaped,
    json_document, parse_json, required_text, struct_shaped, take_field, text_or_default,
    JsonValue,
};
use crate::text::{push_str, str_eq};

verus! {

/// The venue name carried by Bitget API errors.
pub open spec fn bitget_name() -> Seq<char> {
    "bitget"@
}

/// The code of a successful response.
pub open spec fn success_code() -> Seq<char> {
    "00000"@
}

/// The error reported for a response code other than success.
pub open spec fn api_error(code: Seq<char>, msg: Seq<char>, op: Seq<char>) -> ErrorView {
    ErrorView::Api { exchange: bitget_name(), code, message: op + ": "@ + msg }
}

/// What checking a response code gives.
pub open spec fn ensure_ok_result(code: Seq<char>, msg: Seq<char>, op: Seq<char>) -> Option<
    ErrorView,
> {
    if code == success_code() {
        None
    } else {
        Some(api_error(code, msg, op))
    }
}

/// A response succeeds exactly when its code is `00000`; the code `0`, like
/// every other code, is an error.
pub proof fn only_00000_is_success(code: Seq<char>, msg: Seq<char>, op: Seq<char>)
    ensures
        ensure_ok_result(code, msg, op).is_none() <==> code == "00000"@,
        code == "0"@ ==> ensure_ok_result(code, msg, op) == Some(api_error(code, msg, op)),
{
    reveal_strlit("00000");
    reveal_strlit("0");
    assert("0"@.len() != "00000"@.len());
}

/// Fails with an API error unless `code` is the success code.
pub fn ensure_ok(code: &str, msg: &str, op: &str) -> (r: Result<(), ExchangeError>)
    ensures
        match r {
            Ok(()) => ensure_ok_result(code@, msg@, op@).is_none(),
            Err(e) => ensure_ok_result(code@, msg@, op@) == Some(e@),
        },
{
    if str_eq(code, "00000") {
        Ok(())
    } else {
        let mut message = String::new();
        push_str(&mut message, op);
        push_str(&mut message, ": ");
        push_str(&mut message, msg);
        Err(ExchangeError::Api { exchange: "bitget".to_owned(), code: code.to_owned(), message })
    }
}

/// A list response: `data` is an array of rows.
#[derive(Debug)]
pub struct BitgetResponse<T> {
    pub code: String,
    pub msg: String,
    pub data: Vec<T>,
}

impl<T> BitgetResponse<T> {
    /// The rows of a successful response; the API error otherwise.
    pub fn into_data(self, op: &str) -> (r: Result<Vec<T>, ExchangeError>)
        ensures
            match r {
                Ok(rows) => ensure_ok_result(self.code@, self.msg@, op@).is_none() && rows
                    == self.data,
                Err(e) => ensure_ok_result(self.code@, self.msg@, op@) == Some(e@),
            },
    {
        match ensure_ok(self.code.as_str(), self.msg.as_str(), op) {
            Ok(()) => Ok(self.data),
            Err(e) => Err(e),
        }
    }
}

/// An object response: `data` is one value or `null`.
#[derive(Debug)]
pub struct BitgetObjectResponse<T> {
    pub code: String,
    pub msg: String,
    pub data: Option<T>,
}

/// The error reported for a successful object response without data.
pub open spec fn empty_data_error(op: Seq<char>) -> ErrorView {
    ErrorView::Parse("bitget "@ + op + ": empty data"@)
}

impl<T> BitgetObjectResponse<T> {
    /// The value of a successful response, which may be absent.
    pub fn into_option(self, op: &str) -> (r: Result<Option<T>, ExchangeError>)
        ensures
            match r {
                Ok(v) => ensure_ok_result(self.code@, self.msg@, op@).is_none() && v == self.data,
                Err(e) => ensure_ok_result(self.code@, self.msg@, op@) == Some(e@),
            },
    {
        match ensure_ok(self.code.as_str(), self.msg.as_str(), op) {
            Ok(()) => Ok(self.data),
            Err(e) => Err(e),
        }
    }

    /// The value of a successful response, which must be present.
    pub fn into_result(self, op: &str) -> (r: Result<T, ExchangeError>)
        ensures
            match r {
                Ok(v) => ensure_ok_result(self.code@, self.msg@, op@).is_none() && self.data
                    == Some(v),
                Err(e) => match ensure_ok_result(self.code@, self.msg@, op@) {
                    Some(api) => e@ == api,
                    None => self.data is None && e@ == empty_data_error(op@),
                },
            },
    {
        let ghost data = self.data;
        match self.into_option(op) {
            Ok(Some(v)) => Ok(v),
            Ok(None) => {
                let mut message = String::new();
                push_str(&mut message, "bitget ");
                push_str(&mut message, op);
                push_str(&mut message, ": empty data");
                Err(ExchangeError::Parse(message))
            },
            Err(e) => Err(e),
        }
    }
}

/// The `{code, msg}` of an error body: a required string `code` and an
/// optional string `msg`.
pub open spec fn error_body(doc: JsonValue) -> Option<(Seq<char>, Seq<char>)> {
    if !struct_shaped(doc, 2) {
        None
    } else {
        match (required_text(field(doc, 0, "code"@)), text_or_default(field(doc, 1, "msg"@))) {
            (Ok(code), Ok(msg)) => Some((code, msg)),
            _ => None,
        }
    }
}

/// The API error that a response body carries, if it is a well-formed error
/// envelope with a code other than success.
pub fn api_error_from_body(body: &str, op: &str) -> (r: Option<ExchangeError>)
    ensures
        match r {
            Some(e) => match json_document(body@) {
                Some(doc) => match error_body(doc) {
                    Some((code, msg)) => ensure_ok_result(code, msg, op@) == Some(e@),
                    None => false,
                },
                None => false,
            },
            None => match json_document(body@) {
                Some(doc) => match error_body(doc) {
                    Some((code, msg)) => ensure_ok_result(code, msg, op@).is_none(),
                    None => true,
                },
                None => true,
            },
        },
{
    let doc = match parse_json(body) {
        Some(d) => d,
        None => return None,
    };
    if !is_struct_shaped(&doc, 2) {
        return None;
    }
    let code = match decode_required_text_field(&doc, 0, "code") {
        Ok(c) => c,
        Err(_) => return None,
    };
    let msg = match decode_text_field(&doc, 1, "msg") {
        Ok(m) => m,
        Err(_) => return None,
    };
    match ensure_ok(code.as_str(), msg.as_str(), op) {
        Ok(()) => None,
        Err(e) => Some(e),
    }
}

/// An object envelope `{code, msg, data}`: `code` a required string, `msg`
/// an optional string, `data` absent or `null` for none.
pub open spec fn object_envelope(doc: JsonValue) -> Option<(Seq<char>, Seq<char>, Option<JsonValue>)> {
    if !struct_shaped(doc, 3) {
        None
    } else {
        match (required_text(field(doc, 0, "code"@)), text_or_default(field(doc, 1, "msg"@))) {
            (Ok(code), Ok(msg)) => Some(
                (
                    code,
                    msg,
                    match field(doc, 2, "data"@) {
                        Some(JsonValue::Null) => None,
                        d => d,
                    },
                ),
            ),
            _ => None,
        }
    }
}

/// Reads an object envelope from a JSON document, leaving its `data` as a
/// JSON value.
pub fn read_object_envelope(doc: JsonValue) -> (r: Option<BitgetObjectResponse<JsonValue>>)
    ensures
        match r {
            Some(resp) => object_envelope(doc) == Some((resp.code@, resp.msg@, resp.data)),
            None => object_envelope(doc).is_none(),
        },
{
    if !is_struct_shaped(&doc, 3) {
        return None;
    }
    let code = match decode_required_text_field(&doc, 0, "code") {
        Ok(c) => c,
        Err(_) => return None,
    };
    let msg = match decode_text_field(&doc, 1, "msg") {
        Ok(m) => m,
        Err(_) => return None,
    };
    let data = match take_field(doc, 2, "data") {
        None => None,
        Some(JsonValue::Null) => None,
        Some(d) => Some(d),
    };
    Some(BitgetObjectResponse { code, msg, data })
}

/// Reads an object envelope, leaving its `data` as a JSON value.
pub fn parse_object_envelope(body: &str) -> (r: Option<BitgetObjectResponse<JsonValue>>)
    ensures
        match r {
            Some(resp) => match json_document(body@) {
                Some(doc) => object_envelope(doc) == Some((resp.code@, resp.msg@, resp.data)),
                None => false,
            },
            None => match json_document(body@) {
                Some(doc) => object_envelope(doc).is_none(),
                None => true,
            },
        },
{
    let doc = parse_json(body)?;
    read_object_envelope(doc)
}

/// A list envelope `{code, msg, data}`: `code` a required string, `msg` an
/// optional string, `data` an array that defaults to empty.
pub open spec fn list_envelope(doc: JsonValue) -> Option<(Seq<char>, Seq<char>, Seq<JsonValue>)> {
    if !struct_shaped(doc, 3) {
        None
    } else {
        match (
            required_text(field(doc, 0, "code"@)),
            text_or_default(field(doc, 1, "msg"@)),
            crate::json::list_or_default(field(doc, 2, "data"@)),
        ) {
            (Ok(code), Ok(msg), Some(data)) => Some((code, msg, data)),
            _ => None,
        }
    }
}

/// Reads a list envelope, leaving its rows as JSON values.
pub fn parse_list_envelope(body: &str) -> (r: Option<BitgetResponse<JsonValue>>)
    ensures
        match r {
            Some(resp) => match json_document(body@) {
                Some(doc) => list_envelope(doc) == Some((resp.code@, resp.msg@, resp.data@)),
                None => false,
            },
            None => match json_document(body@) {
                Some(doc) => list_envelope(doc).is_none(),
                None => true,
            },
        },
{
    let doc = parse_json(body)?;
    if !is_struct_shaped(&doc, 3) {
        return None;
    }
    let code = match decode_required_text_field(&doc, 0, "code") {
        Ok(c) => c,
        Err(_) => return None,
    };
    let msg = match decode_text_field(&doc, 1, "msg") {
        Ok(m) => m,
        Err(_) => return None,
    };
    let data = match take_field(doc, 2, "data") {
        None => Vec::new(),
        Some(JsonValue::Array(items)) => items,
        Some(_) => return None,
    };
    Some(BitgetResponse { code, msg, data })
}

} // verus!
