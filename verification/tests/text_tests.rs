use bitforge::text::{
    appended, contains, decimal_string, from_chars, join_strings, signed_decimal_string, split_on,
    strip_leading_char, to_chars,
};

fn strings(items: &[&str]) -> Vec<String> {
    items.iter().map(|s| s.to_string()).collect()
}

#[test]
fn chars_round_trip() {
    let v = to_chars("héllo ✓");
    assert_eq!(v, vec!['h', 'é', 'l', 'l', 'o', ' ', '✓']);
    assert_eq!(from_chars(&v), "héllo ✓");
    assert_eq!(from_chars(&to_chars("")), "");
}

#[test]
fn contains_finds_substrings() {
    assert!(contains("/opt/homebrew/bin/brew", "/opt/homebrew"));
    assert!(contains("abc", ""));
    assert!(contains("", ""));
    assert!(contains("abc", "abc"));
    assert!(contains("xxabc", "abc"));
    assert!(!contains("abc", "abcd"));
    assert!(!contains("", "a"));
    assert!(!contains("ab", "ba"));
}

#[test]
fn join_puts_separator_between() {
    assert_eq!(join_strings(&strings(&["a", "b", "c"]), ":"), "a:b:c");
    assert_eq!(join_strings(&strings(&["only"]), ":"), "only");
    assert_eq!(join_strings(&strings(&[]), ":"), "");
    assert_eq!(join_strings(&strings(&["", ""]), ", "), ", ");
}

#[test]
fn split_keeps_empty_pieces() {
    assert_eq!(split_on("a:b::c", ':'), strings(&["a", "b", "", "c"]));
    assert_eq!(split_on("", ':'), strings(&[""]));
    assert_eq!(split_on(":", ':'), strings(&["", ""]));
    assert_eq!(split_on("plain", ':'), strings(&["plain"]));
}

#[test]
fn split_then_join_gives_the_text_back() {
    for text in ["", ":", "a:b", "/usr/bin:/bin::", "::x"] {
        assert_eq!(join_strings(&split_on(text, ':'), ":"), text);
    }
}

#[test]
fn strip_leading_removes_the_whole_run() {
    assert_eq!(strip_leading_char("v27.0", 'v'), "27.0");
    assert_eq!(strip_leading_char("vv1", 'v'), "1");
    assert_eq!(strip_leading_char("27.0v", 'v'), "27.0v");
    assert_eq!(strip_leading_char("", 'v'), "");
    assert_eq!(strip_leading_char("vvv", 'v'), "");
}

#[test]
fn decimal_numerals() {
    assert_eq!(decimal_string(0), "0");
    assert_eq!(decimal_string(7), "7");
    assert_eq!(decimal_string(10), "10");
    assert_eq!(decimal_string(4096), "4096");
    assert_eq!(decimal_string(u64::MAX), "18446744073709551615");
    assert_eq!(signed_decimal_string(-1), "-1");
    assert_eq!(signed_decimal_string(0), "0");
    assert_eq!(signed_decimal_string(255), "255");
    assert_eq!(signed_decimal_string(i64::MIN), "-9223372036854775808");
}

#[test]
fn appended_appends() {
    assert_eq!(appended("/opt", "/bin"), "/opt/bin");
    assert_eq!(appended("", ""), "");
}
