use http_handle::response::BufferSink;
use http_handle::response::ByteSink;
use http_handle::Response;
use http_handle::ServerError;
use std::io;

/// Test case for the `Response::new` method.
#[test]
fn test_response_new() {
    let status_code = 200;
    let status_text = "OK";
    let body = b"Hello, world!".to_vec();
    let response = Response::new(status_code, status_text, body.clone());

    assert_eq!(response.status_code, status_code);
    assert_eq!(response.status_text, status_text.to_string());
    assert!(response.headers.is_empty());
    assert_eq!(response.body, body);
}

/// Test case for the `Response::add_header` method.
#[test]
fn test_response_add_header() {
    let mut response = Response::new(200, "OK", vec![]);
    response.add_header("Content-Type", "text/html");

    assert_eq!(response.headers.len(), 1);
    assert_eq!(response.headers[0], ("Content-Type".to_string(), "text/html".to_string()));
}

/// Test case for the `Response::send` method.
#[test]
fn test_response_send() {
    let mut response = Response::new(200, "OK", b"Hello, world!".to_vec());
    response.add_header("Content-Type", "text/plain");

    let mut mock_stream = BufferSink::new();
    let result = response.send(&mut mock_stream);

    assert!(result.is_ok());

    let expected_output = b"HTTP/1.1 200 OK\r\nContent-Type: text/plain\r\n\r\nHello, world!";
    assert_eq!(mock_stream.data, expected_output);
}

/// A sink that refuses every write, counting the attempts.
struct FailingStream {
    write_attempts: usize,
}

impl ByteSink for FailingStream {
    fn write_all_bytes(&mut self, _data: &[u8]) -> Result<(), io::Error> {
        self.write_attempts += 1;
        Err(io::Error::new(io::ErrorKind::Other, "write error"))
    }

    fn flush(&mut self) -> Result<(), io::Error> {
        Ok(())
    }
}

/// Test case for `Response::send` when there is an error during writing.
#[test]
fn test_response_send_error() {
    let mut response = Response::new(200, "OK", b"Hello, world!".to_vec());
    response.add_header("Content-Type", "text/plain");

    let mut failing_stream = FailingStream { write_attempts: 0 };
    let result = response.send(&mut failing_stream);

    assert!(result.is_err());
}

/// When the first write fails, `send` reports an `Io` error and attempts
/// nothing further: one write, no headers, no body, no flush.
#[test]
fn test_send_stops_at_first_failing_write() {
    let mut response = Response::new(200, "OK", b"Hello, world!".to_vec());
    response.add_header("Content-Type", "text/plain");

    let mut failing_stream = FailingStream { write_attempts: 0 };
    let result = response.send(&mut failing_stream);

    assert!(matches!(result.unwrap_err(), ServerError::Io(_)));
    assert_eq!(failing_stream.write_attempts, 1);
}

/// Sending the same response twice produces byte-identical output both
/// times: serialization reads only immutable state.
#[test]
fn test_send_twice_identical_bytes() {
    let mut response = Response::new(404, "Not Found", b"gone".to_vec());
    response.add_header("Content-Type", "text/plain");
    response.add_header("X-Reason", "missing");

    let mut sink = BufferSink::new();
    response.send(&mut sink).unwrap();
    let first_len = sink.data.len();
    response.send(&mut sink).unwrap();

    assert_eq!(sink.data.len(), 2 * first_len);
    assert_eq!(sink.data[..first_len], sink.data[first_len..]);
}

/// `to_bytes` yields the same bytes a send puts on the wire.
#[test]
fn test_to_bytes_matches_send() {
    let mut response = Response::new(301, "Moved Permanently", b"".to_vec());
    response.add_header("Location", "/new");

    let bytes = response.to_bytes();
    let mut sink = BufferSink::new();
    response.send(&mut sink).unwrap();

    assert_eq!(bytes, sink.data);
    assert_eq!(bytes, b"HTTP/1.1 301 Moved Permanently\r\nLocation: /new\r\n\r\n");
}

/// Headers are reproduced verbatim, in insertion order, duplicates kept,
/// and nothing is injected when the caller omits a header.
#[test]
fn test_headers_order_and_duplicates() {
    let mut response = Response::new(200, "OK", b"x".to_vec());
    response.add_header("Set-Cookie", "a=1");
    response.add_header("Set-Cookie", "b=2");

    let bytes = response.to_bytes();
    assert_eq!(bytes, b"HTTP/1.1 200 OK\r\nSet-Cookie: a=1\r\nSet-Cookie: b=2\r\n\r\nx");

    let bare = Response::new(204, "No Content", vec![]);
    assert_eq!(bare.to_bytes(), b"HTTP/1.1 204 No Content\r\n\r\n");
}

/// The status code renders in full decimal, whatever its value.
#[test]
fn test_status_code_rendering() {
    assert_eq!(Response::new(0, "Zero", vec![]).to_bytes(), b"HTTP/1.1 0 Zero\r\n\r\n");
    assert_eq!(Response::new(65535, "Max", vec![]).to_bytes(), b"HTTP/1.1 65535 Max\r\n\r\n");
}

/// A sink that accepts every write but refuses to flush.
struct FailingFlush {
    data: Vec<u8>,
}

impl ByteSink for FailingFlush {
    fn write_all_bytes(&mut self, data: &[u8]) -> Result<(), io::Error> {
        self.data.extend_from_slice(data);
        Ok(())
    }

    fn flush(&mut self) -> Result<(), io::Error> {
        Err(io::Error::new(io::ErrorKind::Other, "flush error"))
    }
}

/// A failed flush is reported as an `Io` error even though every write
/// succeeded; the complete wire bytes were written and remain in place.
#[test]
fn test_send_flush_failure_reported() {
    let mut response = Response::new(200, "OK", b"Hello, world!".to_vec());
    response.add_header("Content-Type", "text/plain");

    let mut sink = FailingFlush { data: Vec::new() };
    let result = response.send(&mut sink);

    assert!(matches!(result.unwrap_err(), ServerError::Io(_)));
    assert_eq!(sink.data, response.to_bytes());
}
