use file_cloud::text::{
    chars_of, followed_by, concat_with, decimal_i64, decimal_u64, find_last, same_text, split_on,
    starts_with, string_of, string_of_range,
};

#[test]
fn split_on_slash() {
    assert_eq!(split_on("a/b/c", '/'), vec!["a", "b", "c"]);
    assert_eq!(split_on("abc", '/'), vec!["abc"]);
    assert_eq!(split_on("", '/'), vec![""]);
    assert_eq!(split_on("/a", '/'), vec!["", "a"]);
    assert_eq!(split_on("a/", '/'), vec!["a", ""]);
    assert_eq!(split_on("a//b", '/'), vec!["a", "", "b"]);
    assert_eq!(split_on("文件/夹", '/'), vec!["文件", "夹"]);
}

#[test]
fn split_agrees_with_std() {
    for s in ["x", "/", "//", "a/b", "docs/reports/2024/", "no separators here"] {
        let expected: Vec<String> = s.split('/').map(|p| p.to_string()).collect();
        assert_eq!(split_on(s, '/'), expected);
    }
}

#[test]
fn decimal_texts() {
    assert_eq!(decimal_u64(0), "0");
    assert_eq!(decimal_u64(7), "7");
    assert_eq!(decimal_u64(10), "10");
    assert_eq!(decimal_u64(1439), "1439");
    assert_eq!(decimal_u64(u64::MAX), "18446744073709551615");
    assert_eq!(decimal_i64(0), "0");
    assert_eq!(decimal_i64(-1), "-1");
    assert_eq!(decimal_i64(2025), "2025");
    assert_eq!(decimal_i64(i64::MAX), "9223372036854775807");
    assert_eq!(decimal_i64(i64::MIN), "-9223372036854775808");
}

#[test]
fn prefixes_and_equality() {
    assert!(starts_with("/docs/reports/a.txt", "/docs/"));
    assert!(!starts_with("/docs/reports/a.txt", "/media/"));
    assert!(starts_with("abc", ""));
    assert!(starts_with("abc", "abc"));
    assert!(!starts_with("ab", "abc"));
    assert!(same_text("abc", "abc"));
    assert!(!same_text("abc", "abd"));
    assert!(!same_text("abc", "ab"));
    assert!(same_text("", ""));
}

#[test]
fn building_strings() {
    assert_eq!(followed_by("ab", "cd"), "abcd");
    assert_eq!(concat_with("a", '/', "b"), "a/b");
    assert_eq!(concat_with("", '/', ""), "/");
    let chars = chars_of("héllo");
    assert_eq!(chars, vec!['h', 'é', 'l', 'l', 'o']);
    assert_eq!(string_of(&chars), "héllo");
    assert_eq!(string_of_range(&chars, 1, 3), "él");
    assert_eq!(string_of_range(&chars, 2, 2), "");
}

#[test]
fn last_occurrence() {
    let chars = chars_of("a.b.c");
    assert_eq!(find_last(&chars, 5, '.'), Some(3));
    assert_eq!(find_last(&chars, 3, '.'), Some(1));
    assert_eq!(find_last(&chars, 1, '.'), None);
    assert_eq!(find_last(&chars, 5, 'x'), None);
    assert_eq!(find_last(&chars, 0, 'a'), None);
}
