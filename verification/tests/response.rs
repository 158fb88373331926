use nextdoor::response::{IntoResponse, Response, Status};

#[test]
fn test_status_methods() {
    assert!(Status::OK.is_success());
    assert!(Status::NoContent.is_error());
    assert!(Status::NotFound.is_error());
    assert!(Status::Reconnect.is_reconnect());
    assert!(Status::NotImplemented.is_error());
    assert!(Status::JsonError.is_error());
    assert!(Status::NotFountPath.is_error());
    assert!(Status::FromStringError.is_error());
}

#[test]
fn test_response_creation() {
    let response = Response::new(Status::OK, "test");
    assert_eq!(response.status, Status::OK);
    assert_eq!(response.body, "test");

    let response = Response::ok("success");
    assert_eq!(response.status, Status::OK);
    assert_eq!(response.body, "success");

    let response = Response::error(Status::NotFound, "not found");
    assert_eq!(response.status, Status::NotFound);
    assert_eq!(response.body, "not found");
}

#[test]
fn test_into_response() {
    let response = ().into_response();
    assert_eq!(response.status, Status::NoContent);
    assert_eq!(response.body, "");

    let response = (Status::OK, "tuple".to_string()).into_response();
    assert_eq!(response.status, Status::OK);
    assert_eq!(response.body, "tuple");

    let response = Status::OK.into_response();
    assert_eq!(response.status, Status::OK);
    assert_eq!(response.body, "");

    let response = "test".to_string().into_response();
    assert_eq!(response.status, Status::OK);
    assert_eq!(response.body, "test");

    let response = "test".into_response();
    assert_eq!(response.status, Status::OK);
    assert_eq!(response.body, "test");
}

#[test]
fn test_result_into_response() {
    let result: Result<&str, Status> = Ok("success");
    let response = result.into_response();
    assert_eq!(response.status, Status::OK);
    assert_eq!(response.body, "success");

    let result: Result<(), Status> = Ok(());
    let response = result.into_response();
    assert_eq!(response.status, Status::NoContent);
    assert_eq!(response.body, "");

    let result: Result<(Status, String), Status> = Ok((Status::OK, "tuple test".to_string()));
    let response = result.into_response();
    assert_eq!(response.status, Status::OK);
    assert_eq!(response.body, "tuple test");

    let result: Result<Status, Status> = Ok(Status::Reconnect);
    let response = result.into_response();
    assert_eq!(response.status, Status::Reconnect);
    assert_eq!(response.body, "");

    let result: Result<String, Status> = Ok("string test".to_string());
    let response = result.into_response();
    assert_eq!(response.status, Status::OK);
    assert_eq!(response.body, "string test");

    let err_result: Result<&str, Status> = Err(Status::NotFound);
    let response = err_result.into_response();
    assert_eq!(response.status, Status::NotFound);
    assert_eq!(response.body, "");
}

#[test]
fn test_option_into_response() {
    let result: Option<&str> = Some("success");
    let response = result.into_response();
    assert_eq!(response.status, Status::OK);
    assert_eq!(response.body, "success");

    let result: Option<()> = Some(());
    let response = result.into_response();
    assert_eq!(response.status, Status::NoContent);
    assert_eq!(response.body, "");

    let result: Option<(Status, String)> = Some((Status::OK, "tuple test".to_string()));
    let response = result.into_response();
    assert_eq!(response.status, Status::OK);
    assert_eq!(response.body, "tuple test");

    let result: Option<Status> = Some(Status::Reconnect);
    let response = result.into_response();
    assert_eq!(response.status, Status::Reconnect);
    assert_eq!(response.body, "");

    let result: Option<String> = Some("string test".to_string());
    let response = result.into_response();
    assert_eq!(response.status, Status::OK);
    assert_eq!(response.body, "string test");

    let none_value: Option<&str> = None;
    let response = none_value.into_response();
    assert_eq!(response.status, Status::NotFound);
    assert_eq!(response.body, "Not Found");
}

#[test]
fn test_response_into_response() {
    let response = Response::new(Status::NotImplemented, "todo").into_response();
    assert_eq!(response.status, Status::NotImplemented);
    assert_eq!(response.body, "todo");
}
