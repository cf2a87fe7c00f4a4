use beatcollector::hashing::to_hex_lower;
use beatcollector::strings::{sort_strings, str_le};

#[test]
fn hex_encoding_matches_known_bytes() {
    assert_eq!(to_hex_lower(&vec![]), "");
    assert_eq!(to_hex_lower(&vec![0x00]), "00");
    assert_eq!(to_hex_lower(&vec![0xbe, 0xef]), "beef");
    assert_eq!(to_hex_lower(&vec![0x01, 0x23, 0x45, 0x67, 0x89, 0xab, 0xcd, 0xef]), "0123456789abcdef");
}

#[test]
fn string_sort_is_lexicographic() {
    let sorted = sort_strings(vec![
        "pear".to_string(),
        "apple".to_string(),
        "banana".to_string(),
        "apple".to_string(),
    ]);
    assert_eq!(sorted, vec!["apple", "apple", "banana", "pear"]);
    assert_eq!(sort_strings(vec![]), Vec::<String>::new());
}

#[test]
fn string_order_compares_by_code_points() {
    assert!(str_le("", ""));
    assert!(str_le("", "a"));
    assert!(!str_le("a", ""));
    assert!(str_le("abc", "abd"));
    assert!(!str_le("abd", "abc"));
    assert!(str_le("ab", "abc"));
    assert!(str_le("Z", "a"));
}
