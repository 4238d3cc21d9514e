use nano_rust::text::{push_decimal, push_signed, str_eq, str_starts_with};

#[test]
fn decimal_rendering_matches_display() {
    for n in [0u64, 7, 10, 99, 12345, u64::MAX] {
        let mut s = String::new();
        push_decimal(&mut s, n);
        assert_eq!(s, n.to_string());
    }
    for n in [0i64, -1, 42, -42, i64::MIN, i64::MAX] {
        let mut s = String::from(">");
        push_signed(&mut s, n);
        assert_eq!(s, format!(">{n}"));
    }
}

#[test]
fn prefixes_and_equality() {
    assert!(str_starts_with("/store/x", "/store/"));
    assert!(!str_starts_with("/stor", "/store/"));
    assert!(str_starts_with("", ""));
    assert!(str_eq("abc", "abc"));
    assert!(!str_eq("abc", "abd"));
    assert!(!str_eq("ab", "abc"));
}
