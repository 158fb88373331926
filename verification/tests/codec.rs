use nextdoor::codec::{encode_close, parse_close};
use nextdoor::request::CloseFrame;

#[test]
fn test_close_round_trip_scenario() {
    let body = encode_close("bye", 1001);
    assert_eq!(body, "{\"reason\":\"bye\",\"code\":1001}");

    let (reason, code) = parse_close(&body).unwrap();
    assert_eq!(reason, "bye");
    assert_eq!(code, 1001);
}

#[test]
fn test_close_frame_body_round_trip() {
    let frame = CloseFrame {
        reason: "shutting down".to_string(),
        code: 1000,
    };
    let body = frame.to_body();
    let back = CloseFrame::from_body(&body).unwrap();
    assert_eq!(back.reason, frame.reason);
    assert_eq!(back.code, frame.code);
}

#[test]
fn test_encode_escapes_specials() {
    let body = encode_close("a\"b\\c\nd\te\ru{unicode: \u{e9}}\u{1}", 4000);
    assert_eq!(
        body,
        "{\"reason\":\"a\\\"b\\\\c\\nd\\te\\ru{unicode: \u{e9}}\\u0001\",\"code\":4000}"
    );

    let (reason, code) = parse_close(&body).unwrap();
    assert_eq!(reason, "a\"b\\c\nd\te\ru{unicode: \u{e9}}\u{1}");
    assert_eq!(code, 4000);
}

#[test]
fn test_parse_accepts_unicode_escape() {
    let (reason, code) = parse_close("{\"reason\":\"\\u0041\\u00e9\",\"code\":7}").unwrap();
    assert_eq!(reason, "A\u{e9}");
    assert_eq!(code, 7);
}

#[test]
fn test_parse_rejects_malformed_bodies() {
    assert!(parse_close("").is_none());
    assert!(parse_close("{}").is_none());
    assert!(parse_close("{\"reason\":\"x\",\"code\":}").is_none());
    assert!(parse_close("{\"reason\":\"x\",\"code\":12a}").is_none());
    assert!(parse_close("{\"reason\":\"x\",\"code\":99999}").is_none());
    assert!(parse_close("{\"reason\":\"x\",\"code\":65536}").is_none());
    assert!(parse_close("{\"reason\":\"x\"}").is_none());
    assert!(parse_close("{\"reason\":\"unterminated,\"code\":1}").is_none());
    assert!(parse_close("{\"reason\":\"x\",\"code\":1}trailing").is_none());
    assert!(parse_close("{\"reason\":\"\\q\",\"code\":1}").is_none());
    assert!(parse_close("{\"reason\":\"\\ud800\",\"code\":1}").is_none());
}

#[test]
fn test_parse_accepts_largest_code() {
    let (reason, code) = parse_close("{\"reason\":\"\",\"code\":65535}").unwrap();
    assert_eq!(reason, "");
    assert_eq!(code, 65535);
}

#[test]
fn test_encoding_is_json_readable() {
    // the produced body is plain JSON: an independent JSON parser reads the
    // same reason and code back out
    let body = encode_close("mixed \"text\"\twith\nbreaks", 1013);
    let value: serde_json::Value = serde_json::from_str(&body).unwrap();
    assert_eq!(
        value.get("reason").unwrap().as_str().unwrap(),
        "mixed \"text\"\twith\nbreaks"
    );
    assert_eq!(value.get("code").unwrap().as_u64().unwrap(), 1013);
}
