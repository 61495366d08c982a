use node_connectivity::errors::{
    AppError, ErrorResponse, STATUS_BAD_REQUEST, STATUS_INTERNAL_SERVER_ERROR,
};

#[test]
fn status_codes() {
    assert_eq!(STATUS_BAD_REQUEST, 400);
    assert_eq!(STATUS_INTERNAL_SERVER_ERROR, 500);
}

#[test]
fn refused_argument_is_a_bad_request_with_its_reason() {
    let reply = AppError::ValueError("min_capacity must be non-negative".to_owned()).into_response();
    assert_eq!(
        reply,
        ErrorResponse { status: 400, body: "min_capacity must be non-negative".to_owned() }
    );
}

#[test]
fn store_failure_is_an_internal_error_without_detail() {
    let reply = AppError::Database("connection refused at 10.0.0.7:8000".to_owned()).into_response();
    assert_eq!(reply.status, 500);
    assert_eq!(reply.body, "Internal Server Error");
}

#[test]
fn store_failures_all_read_the_same() {
    let one = AppError::Database("timeout".to_owned()).into_response();
    let other = AppError::Database(String::new()).into_response();
    assert_eq!(one, other);
}

#[test]
fn empty_reason_is_sent_as_it_is() {
    let reply = AppError::ValueError(String::new()).into_response();
    assert_eq!(reply, ErrorResponse { status: 400, body: String::new() });
}
