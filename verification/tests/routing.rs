#[derive(Debug, Clone, PartialEq)]
pub enum HandlerResponse {
    Success { message: String },
    Error { reason: String },
    Async { task_id: String },
}

#[test]
fn test_handler_response_types() {
    let success = HandlerResponse::Success {
        message: "Operation completed".to_string(),
    };
    assert!(matches!(success, HandlerResponse::Success { .. }));

    let error = HandlerResponse::Error {
        reason: "Invalid input".to_string(),
    };
    assert!(matches!(error, HandlerResponse::Error { .. }));

    let async_resp = HandlerResponse::Async {
        task_id: "task-123".to_string(),
    };
    assert!(matches!(async_resp, HandlerResponse::Async { .. }));
}
