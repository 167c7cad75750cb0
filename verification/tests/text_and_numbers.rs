use content_sync::numbers::{decimal, parse_i32, parse_i8, parse_integer};
use content_sync::text::{chars_of, first_segment, last_segment, replace, split, trim, trim_end};

#[test]
fn trim_removes_unicode_whitespace_on_both_ends() {
    assert_eq!(trim("  a b \n"), "a b");
    assert_eq!(trim("\u{3000}x\u{a0}"), "x");
    assert_eq!(trim(" \t "), "");
    assert_eq!(trim(""), "");
}

#[test]
fn trim_end_keeps_leading_whitespace() {
    assert_eq!(trim_end("  a  "), "  a");
    assert_eq!(trim_end("a\u{2028}"), "a");
}

#[test]
fn replace_takes_occurrences_from_the_left() {
    assert_eq!(replace("1,234,567", ",", ""), "1234567");
    assert_eq!(replace("aaa", "aa", "b"), "ba");
    assert_eq!(replace("Listing 123 Listing", "Listing", ""), " 123 ");
    assert_eq!(replace("no match", "xyz", "q"), "no match");
    assert_eq!(replace("a b", " ", "-"), "a-b");
}

#[test]
fn split_yields_one_more_piece_than_separators() {
    assert_eq!(split("a,b,,c", ','), vec!["a", "b", "", "c"]);
    assert_eq!(split("", ','), vec![""]);
    assert_eq!(split(",", ','), vec!["", ""]);
}

#[test]
fn segments_before_first_and_after_last_separator() {
    assert_eq!(last_segment("https://x.com/y/z.jpg", '/'), "z.jpg");
    assert_eq!(last_segment("plain", '/'), "plain");
    assert_eq!(last_segment("image/", '/'), "");
    assert_eq!(first_segment("2 1", ' '), "2");
    assert_eq!(first_segment("3", ' '), "3");
}

#[test]
fn chars_of_keeps_every_character() {
    assert_eq!(chars_of("añb"), vec!['a', 'ñ', 'b']);
}

#[test]
fn parse_i32_accepts_what_std_accepts() {
    for s in ["123", "-2147483648", "2147483647", "+5", "007", "-0", "0"] {
        assert_eq!(parse_i32(s), s.parse::<i32>().ok(), "{}", s);
    }
}

#[test]
fn parse_i32_refuses_what_std_refuses() {
    for s in ["", "-", "+", "1 ", " 1", "12a", "2147483648", "-2147483649", "99999999999x", "+-1", "$5"] {
        assert_eq!(parse_i32(s), None, "{}", s);
        assert!(s.parse::<i32>().is_err(), "{}", s);
    }
}

#[test]
fn parse_i8_range() {
    assert_eq!(parse_i8("127"), Some(127));
    assert_eq!(parse_i8("-128"), Some(-128));
    assert_eq!(parse_i8("128"), None);
    assert_eq!(parse_i8("3"), Some(3));
}

#[test]
fn parse_integer_within_bounds() {
    assert_eq!(parse_integer("10", -5, 10), Some(10));
    assert_eq!(parse_integer("11", -5, 10), None);
    assert_eq!(parse_integer("-6", -5, 10), None);
}

#[test]
fn decimal_writes_as_display_does() {
    assert_eq!(decimal(0), "0");
    assert_eq!(decimal(-45), "-45");
    assert_eq!(decimal(1234567890), "1234567890");
    assert_eq!(decimal(i64::MIN), i64::MIN.to_string());
    assert_eq!(decimal(i64::MAX), i64::MAX.to_string());
}

#[test]
fn decimal_round_trips_through_parse() {
    for n in [0i32, 1, -1, 9, 10, 99, 100, i32::MAX, i32::MIN, 48213] {
        assert_eq!(parse_i32(&decimal(n as i64)), Some(n));
    }
}
