use ruchy_lambda_runtime::{Error, HttpError, Runtime};

#[test]
fn test_error_display() {
    let error = Error::InitializationFailed("test failure".to_string());
    let msg = error.to_string();
    assert!(msg.contains("Initialization failed"));
    assert!(msg.contains("test failure"));
}

#[test]
fn test_error_display_message() {
    let error = Error::InitializationFailed("test failure".to_string());
    let message = error.to_string();
    assert!(
        message.contains("Initialization failed"),
        "Error message should contain 'Initialization failed', got: {}",
        message
    );
    assert!(
        message.contains("test failure"),
        "Error message should contain the specific error, got: {}",
        message
    );
}

#[test]
fn test_error_debug_format() {
    let error = Error::InitializationFailed("detailed error info".to_string());
    let debug = format!("{:?}", error);
    assert!(
        debug.contains("InitializationFailed"),
        "Debug should show variant name, got: {}",
        debug
    );
    assert!(
        debug.contains("detailed error info"),
        "Debug should show error details, got: {}",
        debug
    );
}

#[test]
fn runtime_error_text_is_exact() {
    let error = Error::InitializationFailed("boom".to_string());
    assert_eq!(error.to_string(), "Initialization failed: boom");
}

#[test]
fn runtime_without_config_uses_default_endpoint() {
    let runtime = Runtime::new(None).unwrap();
    assert_eq!(runtime.endpoint(), "127.0.0.1:9001");
}

#[test]
fn runtime_uses_configured_endpoint() {
    let runtime = Runtime::new(Some("custom-host:3000".to_string())).unwrap();
    assert_eq!(runtime.endpoint(), "custom-host:3000");
}

#[test]
fn runtime_debug_shows_endpoint() {
    let runtime = Runtime::new(Some("127.0.0.1:8888".to_string())).unwrap();
    let debug_str = format!("{runtime:?}");
    assert!(debug_str.contains("Runtime"));
    assert!(debug_str.contains("api_endpoint"));
    assert!(debug_str.contains("127.0.0.1:8888"));
}

#[test]
fn runtime_clone_keeps_endpoint() {
    let runtime = Runtime::new(Some("127.0.0.1:7777".to_string())).unwrap();
    let cloned = runtime.clone();
    assert_eq!(runtime.endpoint(), cloned.endpoint());
}

#[test]
fn client_is_built_once_and_reused() {
    let runtime = Runtime::new(Some("127.0.0.1:5555".to_string())).unwrap();
    let first = runtime.get_client();
    let second = runtime.get_client();
    assert!(std::ptr::eq(first, second));
    assert_eq!(first.endpoint(), "127.0.0.1:5555");
}

#[test]
fn clones_share_the_client() {
    let runtime = Runtime::new(None).unwrap();
    let cloned = runtime.clone();
    let first = cloned.get_client();
    let second = runtime.get_client();
    assert!(std::ptr::eq(first, second));
}

#[test]
fn runtime_is_send_and_sync() {
    fn assert_send_sync<T: Send + Sync>() {}
    assert_send_sync::<Runtime>();
    assert_send_sync::<Error>();
}

#[test]
fn protocol_paths() {
    assert_eq!(
        Runtime::next_event_path(),
        "/2018-06-01/runtime/invocation/next"
    );
    assert_eq!(
        Runtime::response_path("req-123"),
        "/2018-06-01/runtime/invocation/req-123/response"
    );
}

#[test]
fn event_outcome_passes_pairs_and_wraps_failures() {
    let ok = Runtime::event_outcome(Ok(("id".to_string(), "body".to_string()))).unwrap();
    assert_eq!(ok, ("id".to_string(), "body".to_string()));

    let failed = Runtime::event_outcome(Err(HttpError::InvalidResponse("bad".to_string())));
    match failed {
        Err(Error::InitializationFailed(msg)) => {
            assert_eq!(msg, "Failed to get next event: Invalid HTTP response: bad")
        }
        _ => panic!("expected a wrapped failure"),
    }

    let refused = std::io::Error::new(std::io::ErrorKind::ConnectionRefused, "refused");
    match Runtime::event_outcome(Err(HttpError::Io(refused))) {
        Err(Error::InitializationFailed(msg)) => {
            assert!(msg.starts_with("Failed to get next event: HTTP I/O error: "));
            assert!(msg.contains("refused"));
            let expected = format!(
                "Failed to get next event: HTTP I/O error: {}",
                std::io::Error::new(std::io::ErrorKind::ConnectionRefused, "refused")
            );
            assert_eq!(msg, expected);
        }
        _ => panic!("expected a wrapped failure"),
    }
}

#[test]
fn response_outcome_wraps_failures() {
    assert!(Runtime::response_outcome(Ok(())).is_ok());
    match Runtime::response_outcome(Err(HttpError::InvalidResponse("x".to_string()))) {
        Err(Error::InitializationFailed(msg)) => {
            assert_eq!(msg, "Failed to post response: Invalid HTTP response: x")
        }
        _ => panic!("expected a wrapped failure"),
    }
}
