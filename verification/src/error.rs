//! The error type that every adapter operation reports.

use vstd::prelude::*;
use crate::text::push_str;

verus! {

/// Why an adapter operation failed.
#[derive(Debug)]
pub enum ExchangeError {
    /// A venue payload, or a value derived from one, could not be read.
    Parse(String),
    /// The venue answered with an error code, or a request failed validation.
    Api { exchange: String, code: String, message: String },
    /// The transport failed.
    Network(String),
    /// The venue lists no instrument for the requested symbol.
    UnsupportedSymbol(String),
    /// The venue offers no way to do what was asked.
    UnsupportedCapability(String),
}

pub ghost enum ErrorView {
    Parse(Seq<char>),
    Api { exchange: Seq<char>, code: Seq<char>, message: Seq<char> },
    Network(Seq<char>),
    UnsupportedSymbol(Seq<char>),
    UnsupportedCapability(Seq<char>),
}

impl View for ExchangeError {
    type V = ErrorView;

    open spec fn view(&self) -> ErrorView {
        match self {
            ExchangeError::Parse(m) => ErrorView::Parse(m@),
            ExchangeError::Api { exchange, code, message } => ErrorView::Api {
                exchange: exchange@,
                code: code@,
                message: message@,
            },
            ExchangeError::Network(m) => ErrorView::Network(m@),
            ExchangeError::UnsupportedSymbol(s) => ErrorView::UnsupportedSymbol(s@),
            ExchangeError::UnsupportedCapability(s) => ErrorView::UnsupportedCapability(s@),
        }
    }
}

/// The rendering of an error for logs and callers.
pub open spec fn error_text(e: ErrorView) -> Seq<char> {
    match e {
        ErrorView::Parse(m) => "parse error: "@ + m,
        ErrorView::Api { exchange, code, message } => exchange + " api error "@ + code + ": "@
            + message,
        ErrorView::Network(m) => "network error: "@ + m,
        ErrorView::UnsupportedSymbol(s) => "unsupported symbol: "@ + s,
        ErrorView::UnsupportedCapability(s) => "unsupported capability: "@ + s,
    }
}

impl ExchangeError {
    /// The error rendered as text.
    pub fn to_text(&self) -> (r: String)
        ensures
            r@ == error_text(self@),
    {
        let mut out = String::new();
        match self {
            ExchangeError::Parse(m) => {
                push_str(&mut out, "parse error: ");
                push_str(&mut out, m.as_str());
            },
            ExchangeError::Api { exchange, code, message } => {
                push_str(&mut out, exchange.as_str());
                push_str(&mut out, " api error ");
                push_str(&mut out, code.as_str());
                push_str(&mut out, ": ");
                push_str(&mut out, message.as_str());
            },
            ExchangeError::Network(m) => {
                push_str(&mut out, "network error: ");
                push_str(&mut out, m.as_str());
            },
            ExchangeError::UnsupportedSymbol(s) => {
                push_str(&mut out, "unsupported symbol: ");
                push_str(&mut out, s.as_str());
            },
            ExchangeError::UnsupportedCapability(s) => {
                push_str(&mut out, "unsupported capability: ");
                push_str(&mut out, s.as_str());
            },
        }
        out
    }
}

/// A parse error carrying `message`.
pub fn parse_error(message: String) -> (e: ExchangeError)
    ensures
        e@ == ErrorView::Parse(message@),
{
    ExchangeError::Parse(message)
}

} // verus!
