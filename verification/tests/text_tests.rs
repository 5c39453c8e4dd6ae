use lvory::text::{
    contains_char, decimal_string, ends_with, lowercase_equals, parse_u32, split_lines,
    split_words, starts_with, str_equal, trim_str,
};

#[test]
fn trims_white_space() {
    assert_eq!(trim_str("  a b \t\n"), "a b");
    assert_eq!(trim_str("\u{3000}x\u{a0}"), "x");
    assert_eq!(trim_str("   "), "");
}

#[test]
fn splits_words_and_lines() {
    assert_eq!(split_words("  1  10.0.0.1  5 ms "), vec!["1", "10.0.0.1", "5", "ms"]);
    assert_eq!(split_lines("a\r\nb\n\nc"), vec!["a", "b", "", "c"]);
    assert_eq!(split_lines("a\n"), vec!["a"]);
    assert!(split_lines("").is_empty());
}

#[test]
fn parses_and_prints_numbers() {
    assert_eq!(parse_u32("42"), Some(42));
    assert_eq!(parse_u32("+7"), Some(7));
    assert_eq!(parse_u32("4294967295"), Some(4294967295));
    assert_eq!(parse_u32("4294967296"), None);
    assert_eq!(parse_u32("-1"), None);
    assert_eq!(parse_u32("+"), None);
    assert_eq!(parse_u32(""), None);
    assert_eq!(decimal_string(0), "0");
    assert_eq!(decimal_string(7890), "7890");
}

#[test]
fn decimal_notation_reads_back() {
    for n in [0u32, 9, 10, 65535, 4294967295] {
        assert_eq!(parse_u32(&decimal_string(n as u64)), Some(n));
    }
}

#[test]
fn compares_and_searches_text() {
    assert!(starts_with("traceroute to x", "traceroute"));
    assert!(!starts_with("tr", "traceroute"));
    assert!(ends_with("a.tar.gz", ".tar.gz"));
    assert!(!ends_with("gz", ".tar.gz"));
    assert!(contains_char("1.2", '.'));
    assert!(!contains_char("12", '.'));
    assert!(str_equal("*", "*"));
    assert!(!str_equal("*", "**"));
    assert!(lowercase_equals("ReQuEsT", "request"));
    assert!(!lowercase_equals("requests", "request"));
}
