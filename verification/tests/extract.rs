use std::sync::Arc;

use bytes::Bytes;
use nextdoor::{
    error::ExtractError,
    extract::{Binary, Close, FromMesasge, Ping, Pong, State},
    request::{Frames, Request},
};
use tokio_tungstenite::tungstenite::{
    protocol::{frame::coding::CloseCode, CloseFrame},
    Message,
};

#[derive(Debug, PartialEq, Eq)]
struct AppState {
    next: bool,
}

#[test]
fn test_state_extractor() {
    let json_data = r#"{"id":"Alice","secret":30}"#;
    let request = Request::new(Frames::Text, Bytes::from(json_data));
    let state = "test_state".to_string();

    let result = State::call(&request, state.clone());
    assert!(result.is_ok());
    assert_eq!(result.unwrap().0, state);

    let state = Arc::new(AppState { next: true });

    let result = State::call(&request, state.clone());

    assert!(result.is_ok());
    assert_eq!(result.unwrap().0, state);
}

#[test]
fn test_binary_extractor() {
    let data = vec![1, 2, 3, 4];
    let request = Request::new(Frames::Binary, Bytes::from(data.clone()));

    let result = Binary::call(&request, ());
    assert!(result.is_ok());
    assert_eq!(result.unwrap().0, data);
}

#[test]
fn test_close_extractor() {
    let data = Message::Close(Some(CloseFrame {
        reason: "test reason".into(),
        code: CloseCode::Normal,
    }));

    let request = Request::from_ws_message(data);

    let result = Close::call(&request, ());
    assert!(result.is_ok());
    let result = result.unwrap();
    assert!(result.0.is_some());
    let result = result.0.unwrap();
    assert_eq!(result.reason, "test reason".to_string());
    assert_eq!(result.code, 1000);
}

#[test]
fn test_close_extractor_empty_body() {
    let request = Request::from_ws_message(Message::Close(None));

    let result = Close::call(&request, ());
    assert!(result.is_ok());
    assert!(result.unwrap().0.is_none());
}

#[test]
fn test_close_extractor_malformed_body() {
    let request = Request::new(Frames::Close, Bytes::from("{\"reason\":oops}"));

    let result = Close::call(&request, ());
    assert!(matches!(result.unwrap_err(), ExtractError::JsonError(_)));
}

#[test]
fn test_string_extractor() {
    let request = Request::new(Frames::Text, Bytes::from("plain text"));
    let result = <String as FromMesasge<()>>::call(&request, ());
    assert_eq!(result.unwrap(), "plain text");

    let request = Request::new(Frames::Text, Bytes::from(vec![0xFF, 0xFE]));
    let result = <String as FromMesasge<()>>::call(&request, ());
    assert!(matches!(
        result.unwrap_err(),
        ExtractError::FromStringError(_)
    ));
}

#[test]
fn test_ping_pong_extractors() {
    let data = vec![7, 7, 7];
    let request = Request::new(Frames::Ping, Bytes::from(data.clone()));
    assert_eq!(Ping::call(&request, ()).unwrap().0, data);

    let request = Request::new(Frames::Pong, Bytes::from(data.clone()));
    assert_eq!(Pong::call(&request, ()).unwrap().0, data);
}
