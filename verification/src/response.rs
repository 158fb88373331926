//! Outcome vocabulary of a dispatch, and the conversion protocol that turns
//! handler return values into a [`Response`].

use vstd::prelude::*;

verus! {

/// Closed set of dispatch outcomes, interpreted by both the router and the
/// connection runtime. Exactly one variant means success (`OK`) and exactly
/// one requests a reconnect (`Reconnect`); every other variant is error-class.
#[derive(Debug, Clone, Copy, PartialEq, Eq, Structural)]
pub enum Status {
    OK,
    NoContent,
    NotFound,
    Reconnect,
    NotImplemented,
    JsonError,
    NotFountPath,
    FromStringError,
}

impl Status {
    /// True exactly for the one success status.
    pub fn is_success(&self) -> (r: bool)
        ensures
            r == (*self == Status::OK),
    {
        *self == Status::OK
    }

    /// True exactly for the one reconnect-request status.
    pub fn is_reconnect(&self) -> (r: bool)
        ensures
            r == (*self == Status::Reconnect),
    {
        *self == Status::Reconnect
    }

    /// True for every status that is not the success status.
    pub fn is_error(&self) -> (r: bool)
        ensures
            r == (*self != Status::OK),
    {
        *self != Status::OK
    }
}

/// Mathematical value of a [`Response`]: its status and its body as a
/// character sequence.
pub ghost struct RespView {
    pub status: Status,
    pub body: Seq<char>,
}

/// Outcome of one dispatch attempt: a status paired with a textual body.
pub struct Response {
    pub status: Status,
    pub body: String,
}

impl View for Response {
    type V = RespView;

    open spec fn view(&self) -> RespView {
        RespView { status: self.status, body: self.body@ }
    }
}

impl Response {
    /// Builds a response from a status and a body.
    pub fn new(status: Status, body: &str) -> (r: Response)
        ensures
            r@ == (RespView { status, body: body@ }),
    {
        Response { status, body: body.to_owned() }
    }

    /// Builds a success response carrying the given body.
    pub fn ok(body: &str) -> (r: Response)
        ensures
            r@ == (RespView { status: Status::OK, body: body@ }),
    {
        Response::new(Status::OK, body)
    }

    /// Builds an error response with the given status and message.
    pub fn error(status: Status, message: &str) -> (r: Response)
        ensures
            r@ == (RespView { status, body: message@ }),
    {
        Response::new(status, message)
    }
}

/// Conversion protocol from handler return values to a [`Response`].
/// `response_spec` is the mathematical statement of the conversion, and
/// `into_response` is proved to realise it.
pub trait IntoResponse: Sized {
    spec fn response_spec(self) -> RespView;

    fn into_response(self) -> (r: Response)
        ensures
            r@ == self.response_spec(),
    ;
}

impl IntoResponse for () {
    open spec fn response_spec(self) -> RespView {
        RespView { status: Status::NoContent, body: Seq::empty() }
    }

    fn into_response(self) -> (r: Response) {
        Response { status: Status::NoContent, body: String::new() }
    }
}

impl IntoResponse for Status {
    open spec fn response_spec(self) -> RespView {
        RespView { status: self, body: Seq::empty() }
    }

    fn into_response(self) -> (r: Response) {
        Response { status: self, body: String::new() }
    }
}

impl IntoResponse for (Status, String) {
    open spec fn response_spec(self) -> RespView {
        RespView { status: self.0, body: self.1@ }
    }

    fn into_response(self) -> (r: Response) {
        Response { status: self.0, body: self.1 }
    }
}

impl IntoResponse for String {
    open spec fn response_spec(self) -> RespView {
        RespView { status: Status::OK, body: self@ }
    }

    fn into_response(self) -> (r: Response) {
        Response { status: Status::OK, body: self }
    }
}

impl<'a> IntoResponse for &'a str {
    open spec fn response_spec(self) -> RespView {
        RespView { status: Status::OK, body: self@ }
    }

    fn into_response(self) -> (r: Response) {
        Response { status: Status::OK, body: self.to_owned() }
    }
}

impl<T: IntoResponse, E: IntoResponse> IntoResponse for Result<T, E> {
    open spec fn response_spec(self) -> RespView {
        match self {
            Ok(value) => value.response_spec(),
            Err(err) => err.response_spec(),
        }
    }

    fn into_response(self) -> (r: Response) {
        match self {
            Ok(value) => value.into_response(),
            Err(err) => err.into_response(),
        }
    }
}

impl<T: IntoResponse> IntoResponse for Option<T> {
    open spec fn response_spec(self) -> RespView {
        match self {
            Some(value) => value.response_spec(),
            None => RespView { status: Status::NotFound, body: "Not Found"@ },
        }
    }

    fn into_response(self) -> (r: Response) {
        match self {
            Some(value) => value.into_response(),
            None => Response::new(Status::NotFound, "Not Found"),
        }
    }
}

impl IntoResponse for Response {
    open spec fn response_spec(self) -> RespView {
        self@
    }

    fn into_response(self) -> (r: Response) {
        self
    }
}

} // verus!
