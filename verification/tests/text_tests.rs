use sentinel_agent::order::sort_by_name;
use sentinel_agent::text::{concat_str, hex_lower, join_path, parse_u64, u64_to_decimal};

#[test]
fn decimal_text() {
    assert_eq!(u64_to_decimal(0), "0");
    assert_eq!(u64_to_decimal(1234567), "1234567");
    assert_eq!(u64_to_decimal(u64::MAX), "18446744073709551615");
}

#[test]
fn decimal_parsing() {
    let p = |s: &str| parse_u64(&s.chars().collect());
    assert_eq!(p("0000042"), Some(42));
    assert_eq!(p("18446744073709551615"), Some(u64::MAX));
    assert_eq!(p("18446744073709551616"), None);
    assert_eq!(p(""), None);
    assert_eq!(p("-1"), None);
}

#[test]
fn hex_text() {
    assert_eq!(hex_lower(&vec![0x00, 0x0f, 0xab, 0xff]), "000fabff");
    assert_eq!(hex_lower(&vec![]), "");
}

#[test]
fn paths_joined_like_unix_paths() {
    assert_eq!(join_path("/a", "b"), "/a/b");
    assert_eq!(join_path("/a/", "b"), "/a/b");
    assert_eq!(join_path("", "b"), "b");
    assert_eq!(join_path("/a", "/abs"), "/abs");
    assert_eq!(concat_str("ab", "cd"), "abcd");
}

#[test]
fn names_sorted() {
    let items = vec![("b".to_string(), 1), ("a".to_string(), 2), ("c".to_string(), 3), ("a".to_string(), 4)];
    let sorted = sort_by_name(items);
    let names: Vec<&str> = sorted.iter().map(|(n, _)| n.as_str()).collect();
    assert_eq!(names, vec!["a", "a", "b", "c"]);
    assert_eq!(sorted.len(), 4);
}
