use ruchy_lambda_runtime::{HttpClient, HttpError};

#[test]
fn test_parse_response_valid() {
    let response = b"HTTP/1.1 200 OK\r\nContent-Length: 13\r\n\r\n{\"test\":true}";
    let body = HttpClient::parse_response(response).unwrap();
    assert_eq!(body, "{\"test\":true}");
}

#[test]
fn test_parse_response_202() {
    let response = b"HTTP/1.1 202 Accepted\r\nContent-Length: 0\r\n\r\n";
    let body = HttpClient::parse_response(response).unwrap();
    assert_eq!(body, "");
}

#[test]
fn test_parse_response_404() {
    let response = b"HTTP/1.1 404 Not Found\r\n\r\nNot found";
    let result = HttpClient::parse_response(response);
    assert!(result.is_err());
}

#[test]
fn test_parse_response_empty() {
    let response = b"";
    let result = HttpClient::parse_response(response);
    assert!(result.is_err());
}

#[test]
fn test_http_error_display() {
    let error = HttpError::InvalidResponse("test error".to_string());
    let msg = error.to_string();
    assert!(msg.contains("Invalid HTTP response"));
    assert!(msg.contains("test error"));
}

#[test]
fn test_http_client_new() {
    let client = HttpClient::new("127.0.0.1:9001".to_string());
    assert_eq!(client.endpoint(), "127.0.0.1:9001");
}

#[test]
fn test_parse_response_with_headers_valid() {
    let response = b"HTTP/1.1 200 OK\r\nLambda-Runtime-Aws-Request-Id: test-req-123\r\nContent-Length: 13\r\n\r\n{\"test\":true}";
    let (request_id, body) = HttpClient::parse_response_with_headers(response).unwrap();
    assert_eq!(request_id, "test-req-123");
    assert_eq!(body, "{\"test\":true}");
}

#[test]
fn test_parse_response_with_headers_no_request_id() {
    let response = b"HTTP/1.1 200 OK\r\nContent-Length: 13\r\n\r\n{\"test\":true}";
    let (request_id, body) = HttpClient::parse_response_with_headers(response).unwrap();
    assert_eq!(request_id, "unknown");
    assert_eq!(body, "{\"test\":true}");
}

#[test]
fn test_parse_response_with_headers_empty_response() {
    let response = b"";
    let result = HttpClient::parse_response_with_headers(response);
    assert!(result.is_err());
    if let Err(HttpError::InvalidResponse(msg)) = result {
        assert!(msg.contains("Empty response"));
    } else {
        panic!("Expected InvalidResponse error");
    }
}

#[test]
fn test_parse_response_with_headers_non_2xx() {
    let response = b"HTTP/1.1 404 Not Found\r\n\r\nNot found";
    let result = HttpClient::parse_response_with_headers(response);
    assert!(result.is_err());
    if let Err(HttpError::InvalidResponse(msg)) = result {
        assert!(msg.contains("Non-2xx status"));
    } else {
        panic!("Expected InvalidResponse error");
    }
}

#[test]
fn test_parse_response_with_headers_no_body_separator() {
    let response = b"HTTP/1.1 200 OK\r\nContent-Length: 0";
    let result = HttpClient::parse_response_with_headers(response);
    assert!(result.is_err());
    if let Err(HttpError::InvalidResponse(msg)) = result {
        assert!(msg.contains("No body separator"));
    } else {
        panic!("Expected InvalidResponse error");
    }
}

#[test]
fn test_parse_response_with_headers_case_insensitive() {
    let response =
        b"HTTP/1.1 200 OK\r\nLAMBDA-RUNTIME-AWS-REQUEST-ID: test-456\r\n\r\n{\"data\":true}";
    let (request_id, body) = HttpClient::parse_response_with_headers(response).unwrap();
    assert_eq!(request_id, "test-456");
    assert_eq!(body, "{\"data\":true}");
}

#[test]
fn test_parse_response_with_headers_whitespace_in_header() {
    let response =
        b"HTTP/1.1 200 OK\r\nLambda-Runtime-Aws-Request-Id:   test-789  \r\n\r\n{\"ok\":true}";
    let (request_id, body) = HttpClient::parse_response_with_headers(response).unwrap();
    assert_eq!(request_id, "test-789");
    assert_eq!(body, "{\"ok\":true}");
}

#[test]
fn test_http_error_io_display() {
    let io_error =
        std::io::Error::new(std::io::ErrorKind::ConnectionRefused, "Connection refused");
    let error = HttpError::Io(io_error);
    let msg = error.to_string();
    assert!(msg.contains("HTTP I/O error"));
}

#[test]
fn test_http_error_from_io() {
    let io_error = std::io::Error::new(std::io::ErrorKind::TimedOut, "Timed out");
    let http_error: HttpError = io_error.into();
    assert!(matches!(http_error, HttpError::Io(_)));
}

#[test]
fn test_parse_response_with_headers_empty_body() {
    let response = b"HTTP/1.1 202 Accepted\r\nLambda-Runtime-Aws-Request-Id: req-empty\r\nContent-Length: 0\r\n\r\n";
    let (request_id, body) = HttpClient::parse_response_with_headers(response).unwrap();
    assert_eq!(request_id, "req-empty");
    assert_eq!(body, "");
}

#[test]
fn test_parse_response_with_headers_large_body() {
    let large_body = "x".repeat(10000);
    let response = format!(
        "HTTP/1.1 200 OK\r\nLambda-Runtime-Aws-Request-Id: req-large\r\nContent-Length: {}\r\n\r\n{}",
        large_body.len(),
        large_body
    );
    let (request_id, body) =
        HttpClient::parse_response_with_headers(response.as_bytes()).unwrap();
    assert_eq!(request_id, "req-large");
    assert_eq!(body.len(), 10000);
}

#[test]
fn test_parse_response_with_headers_multiple_headers() {
    let response = b"HTTP/1.1 200 OK\r\nContent-Type: application/json\r\nLambda-Runtime-Aws-Request-Id: multi-header\r\nX-Custom: value\r\n\r\n{\"multi\":true}";
    let (request_id, body) = HttpClient::parse_response_with_headers(response).unwrap();
    assert_eq!(request_id, "multi-header");
    assert_eq!(body, "{\"multi\":true}");
}
