//! Error values produced while extracting typed arguments from a request,
//! and their conversion into error-class responses.

use vstd::prelude::*;
use vstd::string::StringExecFns;

use crate::response::{IntoResponse, RespView, Response, Status};

verus! {

/// Rejection a handler can raise explicitly.
#[derive(Debug)]
pub enum HandlerError {
    NotFound(String),
}

impl IntoResponse for HandlerError {
    open spec fn response_spec(self) -> RespView {
        match self {
            HandlerError::NotFound(msg) => RespView { status: Status::NotFound, body: msg@ },
        }
    }

    fn into_response(self) -> (r: Response) {
        match self {
            HandlerError::NotFound(msg) => Response { status: Status::NotFound, body: msg },
        }
    }
}

/// Failure of an extractor. Each variant carries a description of the
/// underlying fault.
#[derive(Debug)]
pub enum ExtractError {
    FromStringError(String),
    JsonError(String),
}

impl IntoResponse for ExtractError {
    open spec fn response_spec(self) -> RespView {
        match self {
            ExtractError::FromStringError(e) => RespView {
                status: Status::FromStringError,
                body: "Failed to parse request body as UTF-8: "@ + e@,
            },
            ExtractError::JsonError(e) => RespView {
                status: Status::JsonError,
                body: "Failed to parse JSON payload: "@ + e@,
            },
        }
    }

    fn into_response(self) -> (r: Response) {
        match self {
            ExtractError::FromStringError(e) => {
                let body = String::from_str("Failed to parse request body as UTF-8: ").concat(
                    e.as_str(),
                );
                Response { status: Status::FromStringError, body }
            },
            ExtractError::JsonError(e) => {
                let body = String::from_str("Failed to parse JSON payload: ").concat(e.as_str());
                Response { status: Status::JsonError, body }
            },
        }
    }
}

} // verus!
