use requers::failure::Failure;
use requers::response::Response;
use ureq::http::{HeaderMap, HeaderValue};

fn response(status: u16) -> Response {
    Response::new(status, &HeaderMap::new(), "body".to_string(), "https://example.com".to_string())
}

#[test]
fn response_holds_what_came() {
    let mut headers = HeaderMap::new();
    headers.insert("content-type", HeaderValue::from_static("text/html"));
    let response = Response::new(200, &headers, "hello".to_string(), "https://example.com/?a=1".to_string());
    assert_eq!(response.status_code, 200);
    assert_eq!(response.text, "hello");
    assert_eq!(response.headers, vec![("content-type".to_string(), "text/html".to_string())]);
    assert_eq!(response.url, "https://example.com/?a=1");
    assert!(response.ok);
}

#[test]
fn success_is_ok() {
    for (status, ok) in [(199, false), (200, true), (204, true), (299, true), (300, false), (404, false)] {
        assert_eq!(response(status).ok, ok);
    }
}

#[test]
fn bad_status_is_raised() {
    assert_eq!(response(404).raise_for_status(), Err("404 body".to_string()));
    assert_eq!(response(400).raise_for_status(), Err("400 body".to_string()));
    assert_eq!(response(599).raise_for_status(), Err("599 body".to_string()));
}

#[test]
fn other_status_is_not_raised() {
    for status in [100, 200, 302, 399, 600] {
        assert_eq!(response(status).raise_for_status(), Ok(()));
    }
}

#[test]
fn messages_tell_what_failed() {
    let reason = || "why".to_string();
    assert_eq!(Failure::Proxy(reason()).message(), "Proxy error: why");
    assert_eq!(Failure::Request(reason()).message(), "Request failed: why");
    assert_eq!(Failure::TextDecoding(reason()).message(), "Text decoding failed: why");
    assert_eq!(Failure::OpenFile(reason()).message(), "Failed to open file: why");
    assert_eq!(Failure::ReadFile(reason()).message(), "Failed to read file: why");
}

#[test]
fn file_failures_are_told_apart() {
    assert!(Failure::OpenFile(String::new()).is_file_failure());
    assert!(Failure::ReadFile(String::new()).is_file_failure());
    assert!(!Failure::Proxy(String::new()).is_file_failure());
    assert!(!Failure::Request(String::new()).is_file_failure());
    assert!(!Failure::TextDecoding(String::new()).is_file_failure());
}

#[test]
fn bad_status_still_gives_a_response() {
    let response = Response::new(404, &HeaderMap::new(), "nope".to_string(), "http://h.test/missing".to_string());
    assert_eq!(response.status_code, 404);
    assert_eq!(response.text, "nope");
    assert!(!response.ok);
    assert_eq!(response.raise_for_status(), Err("404 nope".to_string()));
}
