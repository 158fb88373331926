use std::sync::Arc;

use bytes::Bytes;
use nextdoor::{
    handler::{CloseEchoHandler, EchoHandler, FixedHandler, StateEchoHandler},
    request::{CloseFrame, Frames, Request},
    response::Status,
    NextDoor,
};
use tokio_tungstenite::tungstenite::{
    protocol::{frame::coding::CloseCode, CloseFrame as WsCloseFrame},
    Message,
};

#[test]
fn test_text_handler() {
    let mut router: NextDoor<Arc<()>, EchoHandler> = NextDoor::new();
    router.text(EchoHandler);

    let test_message = "Hello, World!";
    let request = Request::from_ws_message(Message::Text(test_message.to_string()));

    let response = router.handler(request);
    assert_eq!(response.status, Status::OK);
    assert_eq!(response.body, test_message);
}

#[test]
fn test_not_found_handler() {
    let router: NextDoor<Arc<()>, EchoHandler> = NextDoor::new();
    let test_message = "Hello, World!";
    let request = Request::from_ws_message(Message::Text(test_message.to_string()));

    let response = router.handler(request);
    assert_eq!(response.status, Status::NotFountPath);
    assert_eq!(response.body, test_message);
}

#[test]
fn test_first_success_wins() {
    let mut router: NextDoor<Arc<()>, FixedHandler> = NextDoor::new();
    router.text(FixedHandler {
        status: Status::NotImplemented,
        body: "first".to_string(),
    });
    router.text(FixedHandler {
        status: Status::OK,
        body: "second".to_string(),
    });
    router.text(FixedHandler {
        status: Status::OK,
        body: "third".to_string(),
    });

    let request = Request::new(Frames::Text, Bytes::from("payload"));
    let response = router.handler(request);
    assert_eq!(response.status, Status::OK);
    assert_eq!(response.body, "second");
}

#[test]
fn test_no_success_surfaces_last_body() {
    let mut router: NextDoor<Arc<()>, FixedHandler> = NextDoor::new();
    router.text(FixedHandler {
        status: Status::JsonError,
        body: "first failure".to_string(),
    });
    router.text(FixedHandler {
        status: Status::NotImplemented,
        body: "last failure".to_string(),
    });

    let request = Request::new(Frames::Text, Bytes::from("payload"));
    let response = router.handler(request);
    assert_eq!(response.status, Status::NotFound);
    assert_eq!(response.body, "last failure");
}

#[test]
fn test_routes_are_per_kind() {
    let mut router: NextDoor<Arc<()>, FixedHandler> = NextDoor::new();
    router.binary(FixedHandler {
        status: Status::OK,
        body: "binary answer".to_string(),
    });

    let response = router.handler(Request::new(Frames::Binary, Bytes::from(vec![1u8])));
    assert_eq!(response.status, Status::OK);
    assert_eq!(response.body, "binary answer");

    let response = router.handler(Request::new(Frames::Ping, Bytes::from("ping")));
    assert_eq!(response.status, Status::NotFountPath);
    assert_eq!(response.body, "ping");
}

#[test]
fn test_with_state() {
    let state = Arc::new("TestState".to_string());
    let mut router = NextDoor::with_state(state);
    router.text(StateEchoHandler);

    let test_message = "Hello";
    let request = Request::from_ws_message(Message::Text(test_message.to_string()));

    let response = router.handler(request);
    assert_eq!(response.status, Status::OK);
    assert_eq!(response.body, format!("TestState - {}", test_message));
}

#[test]
fn test_with_state_is_kept() {
    let state = Arc::new("TestState".to_string());
    let router: NextDoor<Arc<String>, EchoHandler> = NextDoor::with_state(state.clone());
    assert_eq!(router.state, state);
}

#[test]
fn test_close_echo_round_trip() {
    let mut router: NextDoor<Arc<()>, CloseEchoHandler> = NextDoor::new();
    router.close(CloseEchoHandler);

    let message = Message::Close(Some(WsCloseFrame {
        reason: "bye \"quoted\"\nline".into(),
        code: CloseCode::Away,
    }));
    let request = Request::from_ws_message(message);
    let response = router.handler(request);
    assert_eq!(response.status, Status::OK);

    let frame = CloseFrame::from_body(&response.body).unwrap();
    assert_eq!(frame.reason, "bye \"quoted\"\nline");
    assert_eq!(frame.code, 1001);
}
