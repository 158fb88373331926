//! Classified inbound messages: the frame kind vocabulary, the immutable
//! request envelope, and the bridge between transport messages and requests.

use vstd::prelude::*;
use vstd::string::StrSliceExecFns;
use vstd::utf8::{decode_utf8, encode_utf8, valid_utf8};

use bytes::Bytes;
use tokio_tungstenite::tungstenite::protocol::frame::coding::CloseCode;
use tokio_tungstenite::tungstenite::protocol::CloseFrame as WsCloseFrame;
use tokio_tungstenite::tungstenite::Message;

use crate::codec::{encode_close, encode_close_spec, parse_close, parse_close_spec};

verus! {

/// Kind of a transport frame; the routing key of the dispatch engine.
#[derive(Debug, Clone, PartialEq, Eq, Hash, Structural)]
pub enum Frames {
    Text,
    Binary,
    Close,
    Ping,
    Pong,
}

#[verifier::external_type_specification]
#[verifier::external_body]
pub struct ExBytes(Bytes);

#[verifier::external_type_specification]
#[verifier::external_body]
pub struct ExMessage(Message);

#[verifier::external_type_specification]
#[verifier::external_body]
pub struct ExFromUtf8Error(std::string::FromUtf8Error);

/// The bytes held by a shared buffer.
pub uninterp spec fn bytes_view(b: Bytes) -> Seq<u8>;

/// The classification of a transport message: its frame kind, its payload
/// bytes, and, for a close message, the optional reason and code it
/// carries. A close message's byte component is empty; its payload travels
/// in the third component.
pub uninterp spec fn message_parts_of(m: Message) -> (Frames, Seq<u8>, Option<(Seq<char>, u16)>);

/// Relies on `Bytes::from`: the buffer holds exactly the bytes of the vector.
#[verifier::external_body]
fn bytes_from_vec(v: Vec<u8>) -> (b: Bytes)
    ensures
        bytes_view(b) == v@,
{
    Bytes::from(v)
}

/// Relies on `Bytes` dereferencing to its byte slice; `to_vec` copies it out.
#[verifier::external_body]
fn bytes_to_vec(b: &Bytes) -> (v: Vec<u8>)
    ensures
        v@ == bytes_view(*b),
{
    b.to_vec()
}

/// Relies on `Bytes::len`: the length of the held bytes.
#[verifier::external_body]
fn bytes_len(b: &Bytes) -> (n: usize)
    ensures
        n == bytes_view(*b).len(),
{
    b.len()
}

/// Relies on `Bytes::clone`: a cheap second handle to the same bytes.
pub assume_specification[ <Bytes as Clone>::clone ](b: &Bytes) -> (r: Bytes)
    ensures
        bytes_view(r) == bytes_view(*b),
;

/// Mathematical value of a [`Request`]: its kind and its payload bytes.
pub ghost struct ReqView {
    pub path: Frames,
    pub body: Seq<u8>,
}

/// Immutable envelope of one classified inbound message.
#[derive(Clone)]
pub struct Request {
    pub path: Frames,
    pub body: Bytes,
}

impl View for Request {
    type V = ReqView;

    open spec fn view(&self) -> ReqView {
        ReqView { path: self.path, body: bytes_view(self.body) }
    }
}

/// Structural view of a close frame's payload.
#[derive(Debug, Clone)]
pub struct CloseFrame {
    pub reason: String,
    pub code: u16,
}

impl CloseFrame {
    /// The textual body this close payload is carried as.
    pub fn to_body(&self) -> (r: String)
        ensures
            r@ == encode_close_spec(self.reason@, self.code),
    {
        encode_close(self.reason.as_str(), self.code)
    }

    /// Reads a close payload back from its textual body.
    pub fn from_body(s: &str) -> (r: Option<CloseFrame>)
        ensures
            r is Some <==> parse_close_spec(s@) is Some,
            r matches Some(f) ==> parse_close_spec(s@) == Some((f.reason@, f.code)),
    {
        match parse_close(s) {
            Some((reason, code)) => Some(CloseFrame { reason, code }),
            None => None,
        }
    }
}

/// A well-formed close body: empty, or the encoding of some reason and code.
pub open spec fn close_body_wf(body: Seq<u8>) -> bool {
    body.len() == 0 || exists|reason: Seq<char>, code: u16|
        body == encode_utf8(encode_close_spec(reason, code))
}

/// Relies on `String::from_utf8`: succeeds exactly on valid UTF-8 input and
/// returns the string those bytes encode.
#[verifier::external_body]
fn vec_into_string(v: Vec<u8>) -> (r: Result<String, std::string::FromUtf8Error>)
    ensures
        r is Ok <==> valid_utf8(v@),
        r matches Ok(s) ==> s@ == decode_utf8(v@),
{
    String::from_utf8(v)
}

/// Relies on tungstenite's `Message`: each variant carries its payload
/// bytes, a text payload is a `String`'s bytes and so valid UTF-8, and a
/// close frame carries an optional reason and code. The result is exactly
/// the classification [`message_parts_of`] names.
#[verifier::external_body]
fn message_parts(message: Message) -> (r: (Frames, Vec<u8>, Option<(String, u16)>))
    ensures
        r.0 == message_parts_of(message).0,
        r.1@ == message_parts_of(message).1,
        (r.2 is Some) == (message_parts_of(message).2 is Some),
        r.2 matches Some(p) ==> message_parts_of(message).2 == Some((p.0@, p.1)),
        r.2 is Some ==> r.0 == Frames::Close,
        r.0 == Frames::Text ==> valid_utf8(r.1@),
        r.0 == Frames::Close ==> r.1@.len() == 0,
{
    match message {
        Message::Text(text) => (Frames::Text, text.into_bytes(), None),
        Message::Binary(data) => (Frames::Binary, data, None),
        Message::Ping(data) => (Frames::Ping, data, None),
        Message::Pong(data) => (Frames::Pong, data, None),
        Message::Close(None) => (Frames::Close, Vec::new(), None),
        Message::Close(Some(f)) => (Frames::Close, Vec::new(), Some((f.reason.into_owned(), f.code.into()))),
        Message::Frame(frame) => (Frames::Binary, frame.into_data(), None),
    }
}

/// Relies on tungstenite's `Message::Text` constructor: the message holds
/// exactly the given text.
#[verifier::external_body]
fn message_text(text: String) -> (r: Message)
    ensures
        message_parts_of(r) == (Frames::Text, encode_utf8(text@), None::<(Seq<char>, u16)>),
{
    Message::Text(text)
}

/// Relies on tungstenite's `Message::Binary` constructor: the message holds
/// exactly the given bytes.
#[verifier::external_body]
fn message_binary(data: Vec<u8>) -> (r: Message)
    ensures
        message_parts_of(r) == (Frames::Binary, data@, None::<(Seq<char>, u16)>),
{
    Message::Binary(data)
}

/// Relies on tungstenite's `Message::Ping` constructor: the message holds
/// exactly the given bytes.
#[verifier::external_body]
fn message_ping(data: Vec<u8>) -> (r: Message)
    ensures
        message_parts_of(r) == (Frames::Ping, data@, None::<(Seq<char>, u16)>),
{
    Message::Ping(data)
}

/// Relies on tungstenite's `Message::Pong` constructor: the message holds
/// exactly the given bytes.
#[verifier::external_body]
fn message_pong(data: Vec<u8>) -> (r: Message)
    ensures
        message_parts_of(r) == (Frames::Pong, data@, None::<(Seq<char>, u16)>),
{
    Message::Pong(data)
}

/// Relies on tungstenite's `Message::Close` constructor: a close message
/// without a frame carries no payload.
#[verifier::external_body]
fn message_close_empty() -> (r: Message)
    ensures
        message_parts_of(r) == (Frames::Close, Seq::<u8>::empty(), None::<(Seq<char>, u16)>),
{
    Message::Close(None)
}

/// Relies on tungstenite's `Message::Close` constructor and its `CloseCode`
/// conversions: converting a `u16` to a `CloseCode` and back is the
/// identity on every value, so the message carries exactly this reason and
/// code.
#[verifier::external_body]
fn message_close(reason: String, code: u16) -> (r: Message)
    ensures
        message_parts_of(r) == (Frames::Close, Seq::<u8>::empty(), Some((reason@, code))),
{
    Message::Close(Some(WsCloseFrame { reason: reason.into(), code: CloseCode::from(code) }))
}

impl Request {
    /// Builds a request from a kind and a payload buffer.
    pub fn new(path: Frames, body: Bytes) -> (r: Self)
        ensures
            r@ == (ReqView { path, body: bytes_view(body) }),
    {
        Self { path, body }
    }

    /// Classifies a transport message into a request: the message's own
    /// kind and payload bytes, except that a close frame's reason and code
    /// are carried as their textual encoding and an absent close frame
    /// gives an empty body.
    pub fn from_ws_message(message: Message) -> (r: Self)
        ensures
            r@.path == message_parts_of(message).0,
            message_parts_of(message).2 matches Some(p) ==> r@.body == encode_utf8(
                encode_close_spec(p.0, p.1),
            ),
            message_parts_of(message).2 is None ==> r@.body == message_parts_of(message).1,
            r@.path == Frames::Text ==> valid_utf8(r@.body),
            r@.path == Frames::Close ==> close_body_wf(r@.body),
    {
        let (path, data, close) = message_parts(message);
        if path == Frames::Close {
            match close {
                Some((reason, code)) => {
                    let body_str = encode_close(reason.as_str(), code);
                    let body_vec = body_str.as_str().as_bytes_vec();
                    proof {
                        assert(body_vec@ == encode_utf8(encode_close_spec(reason@, code)));
                    }
                    Self { path: Frames::Close, body: bytes_from_vec(body_vec) }
                },
                None => Self { path: Frames::Close, body: bytes_from_vec(data) },
            }
        } else {
            Self { path, body: bytes_from_vec(data) }
        }
    }

    /// Turns a request back into a transport message of the same kind: a
    /// non-close frame carries the payload bytes unchanged, and a close
    /// frame carries the parsed reason and code (or no frame for an empty
    /// body). A textual frame must hold valid UTF-8, and a close frame must
    /// hold an empty or well-formed close body.
    pub fn into_ws_message(self) -> (r: Message)
        requires
            self@.path == Frames::Text ==> valid_utf8(self@.body),
            self@.path == Frames::Close ==> self@.body.len() == 0 || (valid_utf8(self@.body)
                && parse_close_spec(decode_utf8(self@.body)) is Some),
        ensures
            message_parts_of(r).0 == self@.path,
            self@.path != Frames::Close ==> message_parts_of(r).1 == self@.body,
            self@.path == Frames::Close && self@.body.len() == 0 ==> message_parts_of(r).2
                is None,
            self@.path == Frames::Close && self@.body.len() > 0 ==> (parse_close_spec(
                decode_utf8(self@.body),
            ) matches Some(p) && message_parts_of(r).2 == Some(p)),
    {
        match &self.path {
            Frames::Text => {
                let s = match self.try_to_string() {
                    Ok(s) => s,
                    Err(_) => {
                        proof {
                            assert(false);
                        }
                        String::new()
                    },
                };
                proof {
                    vstd::utf8::decode_utf8_encode_utf8(self@.body);
                }
                message_text(s)
            },
            Frames::Binary => message_binary(self.to_vec()),
            Frames::Ping => message_ping(self.to_vec()),
            Frames::Pong => message_pong(self.to_vec()),
            Frames::Close => {
                if self.is_empty() {
                    message_close_empty()
                } else {
                    let s = match self.try_to_string() {
                        Ok(s) => s,
                        Err(_) => {
                            proof {
                                assert(false);
                            }
                            String::new()
                        },
                    };
                    match parse_close(s.as_str()) {
                        Some((reason, code)) => message_close(reason, code),
                        None => {
                            proof {
                                assert(false);
                            }
                            message_close_empty()
                        },
                    }
                }
            },
        }
    }

    /// The payload decoded as text, when it is valid UTF-8.
    pub fn try_to_string(&self) -> (r: Result<String, std::string::FromUtf8Error>)
        ensures
            r is Ok <==> valid_utf8(self@.body),
            r matches Ok(s) ==> s@ == decode_utf8(self@.body),
    {
        vec_into_string(self.to_vec())
    }

    /// A copy of the payload bytes.
    pub fn to_vec(&self) -> (r: Vec<u8>)
        ensures
            r@ == self@.body,
    {
        bytes_to_vec(&self.body)
    }

    /// Length of the payload in bytes.
    pub fn len(&self) -> (r: usize)
        ensures
            r == self@.body.len(),
    {
        bytes_len(&self.body)
    }

    /// True when the payload is empty.
    pub fn is_empty(&self) -> (r: bool)
        ensures
            r == (self@.body.len() == 0),
    {
        self.len() == 0
    }

    /// Another handle to the payload buffer.
    pub fn body(&self) -> (r: Bytes)
        ensures
            bytes_view(r) == self@.body,
    {
        self.body.clone()
    }
}

} // verus!
