use hostwatch::text::{
    concat_strings, contains_string, find_char_exec, join_strings, parse_digits_range,
    scan_from_exec, strip_leading_exec, trim_exec, u64_to_string,
};

#[test]
fn decimal_rendering_zero() {
    assert_eq!(u64_to_string(0), "0");
}

#[test]
fn decimal_rendering_small() {
    assert_eq!(u64_to_string(7), "7");
    assert_eq!(u64_to_string(10), "10");
    assert_eq!(u64_to_string(65535), "65535");
}

#[test]
fn decimal_rendering_large() {
    assert_eq!(u64_to_string(18446744073709551615), "18446744073709551615");
}

#[test]
fn trim_strips_both_ends() {
    assert_eq!(trim_exec(" nginx\n"), "nginx");
    assert_eq!(trim_exec("\t a b \r\n"), "a b");
}

#[test]
fn trim_of_all_whitespace_is_empty() {
    assert_eq!(trim_exec(" \n\t"), "");
    assert_eq!(trim_exec(""), "");
}

#[test]
fn strip_leading_removes_only_the_front() {
    assert_eq!(strip_leading_exec("/web", '/'), "web");
    assert_eq!(strip_leading_exec("//a/b", '/'), "a/b");
    assert_eq!(strip_leading_exec("plain", '/'), "plain");
    assert_eq!(strip_leading_exec("", '/'), "");
}

#[test]
fn trim_keeps_inner_text_untouched() {
    assert_eq!(trim_exec("x"), "x");
    assert_eq!(trim_exec("a  b"), "a  b");
}

#[test]
fn strip_leading_of_only_separators_is_empty() {
    assert_eq!(strip_leading_exec("///", '/'), "");
}

#[test]
fn concat_joins_with_nothing() {
    let v = vec!["a".to_string(), "bc".to_string(), "".to_string(), "d".to_string()];
    assert_eq!(concat_strings(&v), "abcd");
    let empty: Vec<String> = Vec::new();
    assert_eq!(concat_strings(&empty), "");
}

#[test]
fn join_inserts_separator_between() {
    let v = vec!["x".to_string(), "y".to_string(), "z".to_string()];
    assert_eq!(join_strings(&v, ", "), "x, y, z");
    let one = vec!["only".to_string()];
    assert_eq!(join_strings(&one, ", "), "only");
    let none: Vec<String> = Vec::new();
    assert_eq!(join_strings(&none, ", "), "");
}

#[test]
fn contains_matches_whole_strings() {
    let v = vec!["abc".to_string(), "def".to_string()];
    assert!(contains_string(&v, &"def".to_string()));
    assert!(!contains_string(&v, &"de".to_string()));
    assert!(!contains_string(&v, &"abcdef".to_string()));
}

#[test]
fn parse_digits_reads_a_plain_number() {
    assert_eq!(parse_digits_range("1234", 0, 4), Some(1234));
    assert_eq!(parse_digits_range("a99b", 1, 3), Some(99));
}

#[test]
fn parse_digits_rejects_empty_and_nondigits() {
    assert_eq!(parse_digits_range("", 0, 0), None);
    assert_eq!(parse_digits_range("12x4", 0, 4), None);
    assert_eq!(parse_digits_range("-5", 0, 2), None);
}

#[test]
fn parse_digits_rejects_overflow() {
    assert_eq!(parse_digits_range("18446744073709551615", 0, 20), Some(u64::MAX));
    assert_eq!(parse_digits_range("18446744073709551616", 0, 20), None);
    assert_eq!(parse_digits_range("99999999999999999999999", 0, 23), None);
}

#[test]
fn scanning_finds_token_boundaries() {
    let s = "  ab cd";
    assert_eq!(scan_from_exec(s, 0, false), 2);
    assert_eq!(scan_from_exec(s, 2, true), 4);
    assert_eq!(scan_from_exec(s, 4, false), 5);
    assert_eq!(scan_from_exec(s, 7, false), 7);
}

#[test]
fn find_char_locates_first_occurrence() {
    assert_eq!(find_char_exec("nginx:latest", ':', 0), 5);
    assert_eq!(find_char_exec("a:b:c", ':', 2), 3);
    assert_eq!(find_char_exec("none", ':', 0), 4);
}
