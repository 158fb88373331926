//! The uniform calling convention over handlers: a type-erased capability
//! interface with a mathematical model of each handler's behaviour, and a
//! small family of ready-made handlers.

use std::sync::Arc;

use vstd::prelude::*;
use vstd::string::StringExecFns;
use vstd::utf8::{decode_utf8, valid_utf8};

use crate::codec::{encode_close_spec, parse_close_spec};
use crate::error::ExtractError;
use crate::extract::{Close, FromMesasge};
use crate::request::{ReqView, Request};
use crate::response::{RespView, Response, Status};

verus! {

/// Capability interface of a routable handler. `on_call` is the handler's
/// mathematical behaviour on a request and context value; `call` is held to
/// produce exactly that response.
pub trait HandlerService<S> {
    spec fn on_call(&self, req: ReqView, state: S) -> RespView;

    fn call(&self, req: &Request, state: &S) -> (r: Response)
        ensures
            r@ == self.on_call(req@, *state),
    ;
}

/// Handler answering every request with one fixed response.
pub struct FixedHandler {
    pub status: Status,
    pub body: String,
}

impl<S> HandlerService<S> for FixedHandler {
    open spec fn on_call(&self, req: ReqView, state: S) -> RespView {
        RespView { status: self.status, body: self.body@ }
    }

    fn call(&self, req: &Request, state: &S) -> (r: Response) {
        Response { status: self.status, body: self.body.clone() }
    }
}

/// Handler echoing a textual payload: success with the decoded text, or a
/// decoding error for a payload that is not valid UTF-8.
pub struct EchoHandler;

impl<S> HandlerService<S> for EchoHandler {
    open spec fn on_call(&self, req: ReqView, state: S) -> RespView {
        if valid_utf8(req.body) {
            RespView { status: Status::OK, body: decode_utf8(req.body) }
        } else {
            RespView { status: Status::FromStringError, body: Seq::empty() }
        }
    }

    fn call(&self, req: &Request, state: &S) -> (r: Response) {
        match req.try_to_string() {
            Ok(s) => Response { status: Status::OK, body: s },
            Err(_) => Response { status: Status::FromStringError, body: String::new() },
        }
    }
}

/// Handler echoing the shared context followed by the textual payload,
/// separated by a dash: it shows the context value flowing into a dispatch.
pub struct StateEchoHandler;

impl HandlerService<Arc<String>> for StateEchoHandler {
    open spec fn on_call(&self, req: ReqView, state: Arc<String>) -> RespView {
        if valid_utf8(req.body) {
            RespView { status: Status::OK, body: state@ + " - "@ + decode_utf8(req.body) }
        } else {
            RespView { status: Status::FromStringError, body: Seq::empty() }
        }
    }

    fn call(&self, req: &Request, state: &Arc<String>) -> (r: Response) {
        match req.try_to_string() {
            Ok(s) => {
                let body = String::from_str(state.as_str()).concat(" - ").concat(s.as_str());
                Response { status: Status::OK, body }
            },
            Err(_) => Response { status: Status::FromStringError, body: String::new() },
        }
    }
}

/// Handler that extracts a close payload and answers with its canonical
/// encoding: no content for an absent payload, the re-encoded payload on
/// success, and a recoverable error for a malformed body.
pub struct CloseEchoHandler;

impl<S> HandlerService<S> for CloseEchoHandler {
    open spec fn on_call(&self, req: ReqView, state: S) -> RespView {
        if req.body.len() == 0 {
            RespView { status: Status::NoContent, body: Seq::empty() }
        } else if !valid_utf8(req.body) {
            RespView { status: Status::FromStringError, body: Seq::empty() }
        } else {
            match parse_close_spec(decode_utf8(req.body)) {
                Some(p) => RespView { status: Status::OK, body: encode_close_spec(p.0, p.1) },
                None => RespView { status: Status::JsonError, body: Seq::empty() },
            }
        }
    }

    fn call(&self, req: &Request, state: &S) -> (r: Response) {
        match <Close as FromMesasge<()>>::call(req, ()) {
            Ok(Close(None)) => Response { status: Status::NoContent, body: String::new() },
            Ok(Close(Some(f))) => Response { status: Status::OK, body: f.to_body() },
            Err(ExtractError::FromStringError(_)) => Response {
                status: Status::FromStringError,
                body: String::new(),
            },
            Err(ExtractError::JsonError(_)) => Response {
                status: Status::JsonError,
                body: String::new(),
            },
        }
    }
}

} // verus!
