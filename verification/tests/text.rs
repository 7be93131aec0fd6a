use requers::text::{chars_of, find_from, parse_u64, push_decimal, push_signed_decimal, string_of};

fn number(text: &str) -> Option<u64> {
    parse_u64(&chars_of(text))
}

fn decimal(n: u64) -> String {
    let mut out = String::new();
    push_decimal(&mut out, n);
    out
}

fn signed(n: i32) -> String {
    let mut out = String::new();
    push_signed_decimal(&mut out, n);
    out
}

#[test]
fn decimal_has_no_leading_zeros() {
    for n in [0, 7, 10, 99, 100, 1048576, u64::MAX] {
        assert_eq!(decimal(n), n.to_string());
    }
}

#[test]
fn signed_decimal_has_a_minus_sign() {
    for n in [0, 200, -1, i32::MAX, i32::MIN] {
        assert_eq!(signed(n), n.to_string());
    }
}

#[test]
fn decimal_is_appended() {
    let mut out = String::from("bytes=");
    push_decimal(&mut out, 42);
    assert_eq!(out, "bytes=42");
}

#[test]
fn decimal_reads_back() {
    for n in [0, 9, 10, 65536, u64::MAX - 1, u64::MAX] {
        assert_eq!(number(&decimal(n)), Some(n));
    }
}

#[test]
fn numbers_are_read_as_the_standard_library_reads_them() {
    for text in [
        "", "+", "-", "+0", "-0", "007", "+12", "++1", "1+", " 1", "1 ", "1_000", "12a", "\u{661}",
        "18446744073709551615", "18446744073709551616", "99999999999999999999999", "000000000000000000000000001",
        "184467440737095516150",
    ] {
        assert_eq!(number(text), text.parse::<u64>().ok(), "{text:?}");
    }
}

#[test]
fn text_and_characters_go_both_ways() {
    let text = "a/\u{e9}\u{4e2d}\u{1f600}";
    assert_eq!(chars_of(text), text.chars().collect::<Vec<char>>());
    assert_eq!(string_of(&chars_of(text)), text);
}

#[test]
fn search_starts_where_it_is_told() {
    let chars = chars_of("a/b/c");
    assert_eq!(find_from(&chars, '/', 0), 1);
    assert_eq!(find_from(&chars, '/', 2), 3);
    assert_eq!(find_from(&chars, '/', 4), 5);
    assert_eq!(find_from(&chars, '/', 5), 5);
}
