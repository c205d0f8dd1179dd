use ctftool::text::{
    chars_of, contains, i32_to_string, join, join2, opt_eq, parse_decimal, split, starts_with,
    tail_after, u64_to_string,
};

#[test]
fn join2_concatenates() {
    assert_eq!(join2("ab", "cd"), "abcd");
    assert_eq!(join2("", ""), "");
}

#[test]
fn opt_eq_compares_contents() {
    assert!(opt_eq(&None, &None));
    assert!(opt_eq(&Some("a".to_string()), &Some("a".to_string())));
    assert!(!opt_eq(&Some("a".to_string()), &Some("b".to_string())));
    assert!(!opt_eq(&Some("a".to_string()), &None));
}

#[test]
fn split_keeps_empty_parts() {
    assert_eq!(split("/challenges/1", '/'), vec!["", "challenges", "1"]);
    assert_eq!(split("", '/'), vec![""]);
    assert_eq!(split("a//", '/'), vec!["a", "", ""]);
    assert_eq!(split("abc", '/'), vec!["abc"]);
}

#[test]
fn tail_after_last_separator() {
    assert_eq!(tail_after("/files/chall.tar.gz", '/'), "chall.tar.gz");
    assert_eq!(tail_after("plain", '/'), "plain");
    assert_eq!(tail_after("dir/", '/'), "");
}

#[test]
fn join_puts_separator_between() {
    let items = vec!["a".to_string(), "b".to_string(), "c".to_string()];
    assert_eq!(join(&items, ", "), "a, b, c");
    assert_eq!(join(&items[..1], ", "), "a");
    assert_eq!(join(&[], ", "), "");
}

#[test]
fn parse_decimal_reads_digits_only() {
    assert_eq!(parse_decimal("0"), Some(0));
    assert_eq!(parse_decimal("007"), Some(7));
    assert_eq!(parse_decimal("1577836800"), Some(1577836800));
    assert_eq!(parse_decimal("2147483647"), Some(2147483647));
    assert_eq!(parse_decimal("2147483648"), None);
    assert_eq!(parse_decimal("99999999999999999999"), None);
    assert_eq!(parse_decimal(""), None);
    assert_eq!(parse_decimal("-1"), None);
    assert_eq!(parse_decimal("12a"), None);
}

#[test]
fn contains_finds_a_part() {
    assert!(contains("haystack", "hay"));
    assert!(contains("haystack", "stack"));
    assert!(contains("haystack", "yst"));
    assert!(contains("haystack", "haystack"));
    assert!(contains("haystack", ""));
    assert!(contains("", ""));
    assert!(!contains("haystack", "haystacks"));
    assert!(!contains("haystack", "needle"));
    assert!(!contains("", "a"));
    assert!(contains("Insomni\u{2019}hack \u{00e9}t\u{00e9}", "\u{00e9}t"));
    assert!(!contains("aab", "abb"));
    assert_eq!(chars_of("a\u{00e9}b"), vec!['a', '\u{00e9}', 'b']);
}

#[test]
fn starts_with_compares_the_start() {
    assert!(starts_with("2.31-13", "2.31-"));
    assert!(starts_with("2.31-", "2.31-"));
    assert!(starts_with("anything", ""));
    assert!(!starts_with("2.3", "2.31-"));
    assert!(!starts_with("12.31-1", "2.31-"));
    assert!(!starts_with("", "a"));
}

#[test]
fn numbers_in_decimal() {
    assert_eq!(u64_to_string(0), "0");
    assert_eq!(u64_to_string(7), "7");
    assert_eq!(u64_to_string(10), "10");
    assert_eq!(u64_to_string(18446744073709551615), "18446744073709551615");
    assert_eq!(i32_to_string(0), "0");
    assert_eq!(i32_to_string(42), "42");
    assert_eq!(i32_to_string(-1), "-1");
    assert_eq!(i32_to_string(2147483647), "2147483647");
    assert_eq!(i32_to_string(-2147483648), "-2147483648");
}
