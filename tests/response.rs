use caduceus_collab::response::ApiResponse;

#[test]
fn test_success_response_with_payload() {
    let response = ApiResponse::success("Success", "test_payload");
    assert_eq!(response.message, "Success");
    assert_eq!(response.payload, Some("test_payload"));
}

#[test]
fn test_success_response_no_payload() {
    let response = ApiResponse::success_no_payload("Success");
    assert_eq!(response.message, "Success");
    assert_eq!(response.payload, None);
}

#[test]
fn test_error_response() {
    let response = ApiResponse::error("Error occurred");
    assert_eq!(response.message, "Error occurred");
    assert_eq!(response.payload, None);
}
