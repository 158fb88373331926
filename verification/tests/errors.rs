use nextdoor::{
    error::{ExtractError, HandlerError},
    response::{IntoResponse, Status},
};

#[test]
fn test_handler_error_into_response() {
    let response = HandlerError::NotFound("no such user".to_string()).into_response();
    assert_eq!(response.status, Status::NotFound);
    assert_eq!(response.body, "no such user");
}

#[test]
fn test_extract_error_into_response() {
    let response =
        ExtractError::FromStringError("invalid utf-8 sequence".to_string()).into_response();
    assert_eq!(response.status, Status::FromStringError);
    assert_eq!(
        response.body,
        "Failed to parse request body as UTF-8: invalid utf-8 sequence"
    );

    let response = ExtractError::JsonError("malformed close payload".to_string()).into_response();
    assert_eq!(response.status, Status::JsonError);
    assert_eq!(
        response.body,
        "Failed to parse JSON payload: malformed close payload"
    );
}
