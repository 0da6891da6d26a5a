//! Text and time, the ground that the other modules stand on.

use cstream::clock::{Duration, Instant};
use cstream::text::{
    chars_of, contains, decimal_text, ends_with, join, parse_unsigned, same_text, split_words,
    starts_with, trim,
};

const WHITE: [char; 25] = [
    '\t', '\n', '\u{b}', '\u{c}', '\r', ' ', '\u{85}', '\u{a0}', '\u{1680}', '\u{2000}',
    '\u{2001}', '\u{2002}', '\u{2003}', '\u{2004}', '\u{2005}', '\u{2006}', '\u{2007}', '\u{2008}',
    '\u{2009}', '\u{200a}', '\u{2028}', '\u{2029}', '\u{202f}', '\u{205f}', '\u{3000}',
];

#[test]
fn white_space_is_what_unicode_says() {
    for c in '\0'..=char::MAX {
        let text = format!("{c}x");
        assert_eq!(trim(&text) == "x", c.is_whitespace(), "{:?}", c);
        assert_eq!(WHITE.contains(&c), c.is_whitespace());
    }
}

#[test]
fn trimming_and_splitting_agree_with_the_standard_library() {
    for s in [
        "",
        " ",
        "a",
        "\u{3000}a b\u{85}",
        "  ä  \u{2028}ö\u{a0}ü ",
        "\u{200b}x",
        "a\n",
    ] {
        assert_eq!(trim(s), s.trim());
        let words: Vec<&str> = s.split_whitespace().collect();
        assert_eq!(split_words(s), words);
        assert_eq!(split_words(trim(s)), words);
    }
}

#[test]
fn numbers_are_written_and_read() {
    for n in [0u64, 7, 10, 99, 100, 65535, u32::MAX as u64, u64::MAX] {
        assert_eq!(decimal_text(n as u128), n.to_string());
        assert_eq!(parse_unsigned(&n.to_string(), u64::MAX), Some(n));
    }
    assert_eq!(decimal_text(u128::MAX), u128::MAX.to_string());
    for s in [
        "",
        "+",
        "-1",
        "++1",
        "+ 1",
        " 1",
        "1_0",
        "0x1",
        "٣",
        "18446744073709551616",
        "99999999999999999999999999999999999999999",
    ] {
        assert_eq!(parse_unsigned(s, u64::MAX), None);
        assert_eq!(parse_unsigned(s, u64::MAX), s.parse::<u64>().ok());
    }
    for s in ["+5", "0005", "00000000000000000000000000000000005"] {
        assert_eq!(parse_unsigned(s, u64::MAX), Some(5));
        assert_eq!(parse_unsigned(s, 4), None);
        assert_eq!(parse_unsigned(s, 5), s.parse::<u64>().ok());
    }
}

#[test]
fn parts_are_found_where_they_are() {
    for (s, part) in [
        ("", ""),
        ("abc", ""),
        ("abc", "abc"),
        ("abc", "bc"),
        ("abc", "ab"),
        ("abc", "b"),
        ("abc", "abcd"),
        ("aab", "ab"),
        ("äöü", "ö"),
        ("abc", "ac"),
    ] {
        assert_eq!(starts_with(s, part), s.starts_with(part));
        assert_eq!(ends_with(s, part), s.ends_with(part));
        assert_eq!(contains(s, part), s.contains(part));
        assert_eq!(same_text(s, part), s == part);
        assert_eq!(chars_of(s), s.chars().collect::<Vec<char>>());
    }
}

#[test]
fn items_are_joined_with_what_separates_them() {
    let items = |list: &[&str]| list.iter().map(|s| s.to_string()).collect::<Vec<String>>();
    assert_eq!(join(&items(&[]), ", "), "");
    assert_eq!(join(&items(&["a"]), ", "), "a");
    assert_eq!(join(&items(&["a", "", "b"]), ", "), "a, , b");
}

#[test]
fn spans_are_counted_in_nanoseconds() {
    assert_eq!(Duration::from_secs(3).nanos, 3_000_000_000);
    assert_eq!(Duration::from_millis(1500).nanos, 1_500_000_000);
    assert_eq!(Duration { nanos: 1_999_999 }.as_millis(), 1);
    let (early, late) = (Instant { nanos: 5 }, Instant { nanos: 9 });
    assert_eq!(late.duration_since(early).nanos, 4);
    assert_eq!(early.duration_since(late).nanos, 0);
}
