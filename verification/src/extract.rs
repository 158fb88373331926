//! The extraction protocol: typed values derived from a request and the
//! shared context before a handler runs, with a typed rejection on failure.

use vstd::prelude::*;
use vstd::string::StringExecFns;
use vstd::utf8::{decode_utf8, valid_utf8};

use crate::codec::parse_close_spec;
use crate::error::ExtractError;
use crate::request::{CloseFrame, ReqView, Request};
use crate::response::IntoResponse;

verus! {

/// Capability interface of an extractor: `extract_rel` states which results
/// `call` may produce for a request and a context value, and `call` is held
/// to it.
pub trait FromMesasge<S>: Sized {
    type Rejection: IntoResponse + Send;

    spec fn extract_rel(req: ReqView, state: S, r: Result<Self, Self::Rejection>) -> bool;

    fn call(args: &Request, state: S) -> (r: Result<Self, Self::Rejection>)
        ensures
            Self::extract_rel(args@, state, r),
    ;
}

/// Wrapper marking a value as JSON-encoded payload.
#[derive(Debug, Clone)]
pub struct Json<T>(pub T);

impl<T> Json<T> {
    /// Wraps a value for JSON output.
    pub fn new(msg: T) -> (r: Self)
        ensures
            r.0 == msg,
    {
        Json(msg)
    }
}

/// Relies on `FromUtf8Error`'s `Display` implementation for its message.
#[verifier::external_body]
fn utf8_error_text(e: &std::string::FromUtf8Error) -> String {
    e.to_string()
}

impl<S> FromMesasge<S> for String {
    type Rejection = ExtractError;

    open spec fn extract_rel(req: ReqView, state: S, r: Result<Self, Self::Rejection>) -> bool {
        match r {
            Ok(s) => valid_utf8(req.body) && s@ == decode_utf8(req.body),
            Err(e) => !valid_utf8(req.body) && e is FromStringError,
        }
    }

    fn call(args: &Request, state: S) -> (r: Result<Self, Self::Rejection>) {
        match args.try_to_string() {
            Ok(s) => Ok(s),
            Err(e) => Err(ExtractError::FromStringError(utf8_error_text(&e))),
        }
    }
}

/// Extractor handing out a duplicate of the shared context value.
#[derive(Debug, Clone)]
pub struct State<S>(pub S);

impl<S> FromMesasge<S> for State<S> {
    type Rejection = ExtractError;

    open spec fn extract_rel(req: ReqView, state: S, r: Result<Self, Self::Rejection>) -> bool {
        r matches Ok(v) && v.0 == state
    }

    fn call(args: &Request, state: S) -> (r: Result<Self, Self::Rejection>) {
        Ok(State(state))
    }
}

/// Extractor for the structural view of a close frame: `None` for an empty
/// body, the parsed reason and code otherwise. A malformed body is a
/// recoverable error, never a crash.
#[derive(Debug, Clone)]
pub struct Close(pub Option<CloseFrame>);

impl<S> FromMesasge<S> for Close {
    type Rejection = ExtractError;

    open spec fn extract_rel(req: ReqView, state: S, r: Result<Self, Self::Rejection>) -> bool {
        if req.body.len() == 0 {
            r matches Ok(c) && c.0 is None
        } else if !valid_utf8(req.body) {
            r matches Err(e) && e is FromStringError
        } else {
            match parse_close_spec(decode_utf8(req.body)) {
                Some(p) => r matches Ok(c) && c.0 matches Some(f) && f.reason@ == p.0 && f.code
                    == p.1,
                None => r matches Err(e) && e is JsonError,
            }
        }
    }

    fn call(args: &Request, state: S) -> (r: Result<Self, Self::Rejection>) {
        if args.is_empty() {
            Ok(Close(None))
        } else {
            match args.try_to_string() {
                Err(e) => Err(ExtractError::FromStringError(utf8_error_text(&e))),
                Ok(s) => match CloseFrame::from_body(s.as_str()) {
                    Some(f) => Ok(Close(Some(f))),
                    None => Err(
                        ExtractError::JsonError(String::from_str("malformed close payload")),
                    ),
                },
            }
        }
    }
}

/// Extractor for the raw bytes of a binary frame.
#[derive(Debug, Clone)]
pub struct Binary(pub Vec<u8>);

impl<S> FromMesasge<S> for Binary {
    type Rejection = ExtractError;

    open spec fn extract_rel(req: ReqView, state: S, r: Result<Self, Self::Rejection>) -> bool {
        r matches Ok(v) && v.0@ == req.body
    }

    fn call(args: &Request, state: S) -> (r: Result<Self, Self::Rejection>) {
        Ok(Binary(args.to_vec()))
    }
}

/// Extractor for the raw bytes of a ping frame.
#[derive(Debug, Clone)]
pub struct Ping(pub Vec<u8>);

impl<S> FromMesasge<S> for Ping {
    type Rejection = ExtractError;

    open spec fn extract_rel(req: ReqView, state: S, r: Result<Self, Self::Rejection>) -> bool {
        r matches Ok(v) && v.0@ == req.body
    }

    fn call(args: &Request, state: S) -> (r: Result<Self, Self::Rejection>) {
        Ok(Ping(args.to_vec()))
    }
}

/// Extractor for the raw bytes of a pong frame.
#[derive(Debug, Clone)]
pub struct Pong(pub Vec<u8>);

impl<S> FromMesasge<S> for Pong {
    type Rejection = ExtractError;

    open spec fn extract_rel(req: ReqView, state: S, r: Result<Self, Self::Rejection>) -> bool {
        r matches Ok(v) && v.0@ == req.body
    }

    fn call(args: &Request, state: S) -> (r: Result<Self, Self::Rejection>) {
        Ok(Pong(args.to_vec()))
    }
}

} // verus!
