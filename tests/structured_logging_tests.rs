use ruchy_lambda_runtime::{LogLevel, Logger};
use std::time::Instant;

#[test]
fn test_logger_json_format() {
    let logger = Logger::new();
    logger.info("test message");
}

#[test]
fn test_logger_required_fields() {
    let logger = Logger::new();
    logger.debug("debug message");
    logger.info("info message");
    logger.warn("warn message");
    logger.error("error message");

    let logger_with_id = Logger::with_request_id("test-123");
    logger_with_id.info("message with request id");
}

#[test]
fn test_logger_log_levels() {
    let logger = Logger::new();

    logger.debug("debug level");
    logger.info("info level");
    logger.warn("warn level");
    logger.error("error level");

    let mut filtered_logger = Logger::new();
    filtered_logger.set_min_level(LogLevel::Warn);

    filtered_logger.debug("not logged");
    filtered_logger.info("not logged");

    filtered_logger.warn("logged");
    filtered_logger.error("logged");
}

#[test]
fn test_logger_request_id_context() {
    let logger = Logger::with_request_id("abc-123");
    logger.info("processing");
}

#[test]
fn test_logger_timestamp_format() {
    let logger = Logger::new();
    logger.info("testing timestamp format");
}

#[test]
fn test_logger_json_escaping() {
    let logger = Logger::new();

    logger.info(r#"message with "quotes""#);
    logger.info(r"path\with\backslashes");
    logger.info("line1\nline2\ttab");
}

#[test]
fn test_logger_empty_message() {
    let logger = Logger::new();

    logger.info("");
    logger.error("");
}

#[test]
fn test_logger_writes_to_stdout() {
    let logger = Logger::new();
    logger.info("this goes to stdout");
}

#[test]
fn test_logger_single_line_per_entry() {
    let logger = Logger::new();

    logger.info("first");
    logger.error("second");
    logger.warn("third");
}

#[test]
fn test_logger_performance() {
    let logger = Logger::new();

    logger.info("warmup");

    let start = Instant::now();
    for i in 0..1000 {
        logger.info(&format!("message {}", i));
    }
    let duration = start.elapsed();

    let avg_per_call = duration.as_micros() / 1000;

    assert!(
        avg_per_call < 1000,
        "Logging too slow: {}μs per call",
        avg_per_call
    );
}

#[test]
fn test_logger_integration_with_runtime() {
    let logger = Logger::with_request_id("req-123");

    logger.info("Starting handler execution");
    logger.debug("Processing event data");
    logger.info("Handler execution complete");
}

#[test]
fn test_expected_output_format_documentation() {
    let expected_format = r#"{
  "level": "INFO",
  "timestamp": "2025-11-04T12:34:56.789Z",
  "request_id": "abc-123-def-456",
  "message": "Processing Lambda event"
}"#;

    let expected_actual = r#"{"level":"INFO","timestamp":"2025-11-04T12:34:56.789Z","request_id":"abc-123-def-456","message":"Processing Lambda event"}"#;

    assert!(!expected_format.is_empty());
    assert!(!expected_actual.is_empty());
}
