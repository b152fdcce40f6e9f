use termstage::clock::{Duration, Instant, INSTANT_MAX_NANOS};
use termstage::text::{
    contains, decimal, eq_ignore_ascii_case, join, lines, parse_number, parse_u16, rsplit_once,
    split, split_ascii_whitespace, split_once, strip_prefix, trim, trim_end_matches,
};

#[test]
fn test_should_read_back_numbers() {
    for n in [0_u64, 9, 10, 65535, 65536, u64::MAX] {
        assert_eq!(decimal(n), n.to_string());
        assert_eq!(parse_number(&decimal(n), 10, u64::MAX), Some(n));
    }
    assert_eq!(parse_u16("65536"), None);
    assert_eq!(parse_u16("+7"), Some(7));
    assert_eq!(parse_u16("+"), None);
    assert_eq!(parse_u16("-1"), None);
    assert_eq!(parse_u16(""), None);
    assert_eq!(parse_number("fF", 16, 255), Some(255));
    assert_eq!(parse_number("99999999999999999999", 10, u64::MAX), None);
}

#[test]
fn test_should_split_like_std() {
    for text in ["", "a", "a,b", ",", "a,,b,", " x \t y\n"] {
        assert_eq!(split(text, ','), text.split(',').collect::<Vec<_>>());
        assert_eq!(lines(text), text.lines().collect::<Vec<_>>());
        assert_eq!(
            split_ascii_whitespace(text),
            text.split_ascii_whitespace().collect::<Vec<_>>()
        );
        assert_eq!(trim(text), text.trim());
    }
    assert_eq!(lines("a\r\nb\n\nc"), ["a", "b", "", "c"]);
    assert_eq!(lines("a\r"), "a\r".lines().collect::<Vec<_>>());
    assert_eq!(trim("\u{3000}x\u{a0}\u{85}"), "x");
    assert_eq!(trim_end_matches("/a//", '/'), "/a");
}

#[test]
fn test_should_find_parts() {
    assert_eq!(split_once("a:b:c", ':'), Some(("a".to_owned(), "b:c".to_owned())));
    assert_eq!(rsplit_once("a:b:c", ':'), Some(("a:b".to_owned(), "c".to_owned())));
    assert_eq!(split_once("abc", ':'), None);
    assert_eq!(strip_prefix("ts-x", "ts-"), Some("x".to_owned()));
    assert_eq!(strip_prefix("x", "ts-"), None);
    assert!(contains("hello", "llo"));
    assert!(contains("hello", ""));
    assert!(!contains("hello", "lll"));
    assert!(eq_ignore_ascii_case("Chunked", "cHUNKED"));
    assert_eq!(join(&vec!["a".to_owned(), "b".to_owned()], ", "), "a, b");
}

#[test]
fn test_should_count_time() {
    let start = Instant::from_nanos(5);
    let later = start.checked_add(Duration::from_millis(2)).unwrap();
    assert!(start.at_or_before(later));
    assert!(!later.at_or_before(start));
    assert_eq!(later.saturating_duration_since(start).as_nanos(), 2_000_000);
    assert_eq!(start.saturating_duration_since(later).as_nanos(), 0);
    let last = Duration::from_nanos(INSTANT_MAX_NANOS);
    let end = Instant::from_nanos(0).checked_add(last).unwrap();
    assert!(end.checked_add(Duration::from_nanos(0)).is_some());
    assert!(end.checked_add(Duration::from_nanos(1)).is_none());
    assert!(start.checked_add(Duration::from_nanos(u128::MAX)).is_none());
}
