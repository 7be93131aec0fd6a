use requers::dict::set_item;
use requers::headers::{header_text, size_in_range, text_headers, total_size};
use requers::text::chars_of;
use ureq::http::{HeaderMap, HeaderName, HeaderValue};

fn header_map(lines: &[(&'static str, &'static [u8])]) -> HeaderMap {
    let mut map = HeaderMap::new();
    for (name, value) in lines {
        map.append(HeaderName::from_static(name), HeaderValue::from_bytes(value).unwrap());
    }
    map
}

fn pair(key: &str, value: &str) -> (String, String) {
    (key.to_string(), value.to_string())
}

#[test]
fn content_length_of_a_whole_response() {
    assert_eq!(total_size(200, &header_map(&[("content-length", b"1048576")])), Some(1048576));
}

#[test]
fn content_range_of_a_partial_response() {
    let headers = header_map(&[("content-length", b"100"), ("content-range", b"bytes 900-999/1000")]);
    assert_eq!(total_size(206, &headers), Some(1000));
    assert_eq!(total_size(200, &headers), Some(100));
}

#[test]
fn size_is_unknown_without_the_header() {
    assert_eq!(total_size(200, &header_map(&[])), None);
    assert_eq!(total_size(206, &header_map(&[("content-length", b"100")])), None);
    assert_eq!(total_size(200, &header_map(&[("content-range", b"bytes 0-9/10")])), None);
}

#[test]
fn size_is_unknown_where_it_is_not_a_number() {
    assert_eq!(total_size(206, &header_map(&[("content-range", b"bytes 0-9/*")])), None);
    assert_eq!(total_size(206, &header_map(&[("content-range", b"bytes 0-9")])), None);
    assert_eq!(total_size(200, &header_map(&[("content-length", b"ten")])), None);
    assert_eq!(total_size(200, &header_map(&[("content-length", b"10\xff")])), None);
}

#[test]
fn first_header_of_a_name_counts() {
    let headers = header_map(&[("x-other", b"1"), ("content-length", b"10"), ("content-length", b"20")]);
    assert_eq!(total_size(200, &headers), Some(10));
}

#[test]
fn size_stands_between_the_first_two_slashes() {
    assert_eq!(size_in_range(&chars_of("bytes 0-9/10/99")), Some(10));
    assert_eq!(size_in_range(&chars_of("/7")), Some(7));
    assert_eq!(size_in_range(&chars_of("7/")), None);
    assert_eq!(size_in_range(&chars_of("7")), None);
}

#[test]
fn only_visible_ascii_is_text() {
    assert_eq!(header_text(b"a b\t~"), Some(vec!['a', ' ', 'b', '\t', '~']));
    assert_eq!(header_text(b""), Some(vec![]));
    assert_eq!(header_text(b"\x7f"), None);
    assert_eq!(header_text(b"caf\xc3\xa9"), None);
    for byte in 0..=255u8 {
        if let Ok(value) = HeaderValue::from_bytes(&[byte]) {
            assert_eq!(header_text(&[byte]).is_some(), value.to_str().is_ok());
        }
    }
}

#[test]
fn last_text_of_a_name_wins() {
    let headers = header_map(&[
        ("server", b"one"),
        ("content-type", b"text/plain"),
        ("server", b"two"),
        ("server", b"\xff"),
        ("x-raw", b"\xfe"),
    ]);
    let mut dict = text_headers(&headers);
    dict.sort();
    assert_eq!(dict, vec![pair("content-type", "text/plain"), pair("server", "two")]);
}

#[test]
fn names_come_in_lower_case() {
    let mut map = HeaderMap::new();
    map.insert(HeaderName::from_bytes(b"X-Request-ID").unwrap(), HeaderValue::from_static("7"));
    assert_eq!(text_headers(&map), vec![pair("x-request-id", "7")]);
}

#[test]
fn setting_an_item_keeps_its_place() {
    let mut dict = vec![pair("a", "1"), pair("b", "2")];
    set_item(&mut dict, "a".to_string(), "3".to_string());
    set_item(&mut dict, "c".to_string(), "4".to_string());
    assert_eq!(dict, vec![pair("a", "3"), pair("b", "2"), pair("c", "4")]);
}
