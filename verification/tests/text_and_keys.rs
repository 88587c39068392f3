use plato_calibre::keys::content_key;
use plato_calibre::text::{join_comma, strings_equal, u64_to_decimal};

#[test]
fn decimal_rendering_exact() {
    assert_eq!(u64_to_decimal(0), "0");
    assert_eq!(u64_to_decimal(7), "7");
    assert_eq!(u64_to_decimal(10), "10");
    assert_eq!(u64_to_decimal(1234567890123456789), "1234567890123456789");
    assert_eq!(u64_to_decimal(u64::MAX), "18446744073709551615");
}

#[test]
fn content_key_matches_digest() {
    let key = content_key("http://example.com/42");
    assert_eq!(key, fxhash::hash64("http://example.com/42").to_string());
}

#[test]
fn content_key_deterministic() {
    let a = content_key("http://example.com/42");
    let b = content_key("http://example.com/42");
    assert_eq!(a, b);
}

#[test]
fn content_key_distinct_for_distinct_digests() {
    let ha = fxhash::hash64("one identifier");
    let hb = fxhash::hash64("another identifier");
    assert_ne!(ha, hb);
    assert_ne!(content_key("one identifier"), content_key("another identifier"));
}

#[test]
fn join_comma_author_lists() {
    let empty: Vec<String> = vec![];
    assert_eq!(join_comma(&empty), "");
    assert_eq!(join_comma(&vec!["A".to_string()]), "A");
    assert_eq!(join_comma(&vec!["A".to_string(), "B".to_string()]), "A, B");
    assert_eq!(
        join_comma(&vec!["X".to_string(), "Y".to_string(), "Z".to_string()]),
        "X, Y, Z"
    );
}

#[test]
fn strings_equal_compares_characters() {
    assert!(strings_equal("abc", "abc"));
    assert!(!strings_equal("abc", "abd"));
    assert!(!strings_equal("abc", "abcd"));
    assert!(strings_equal("", ""));
    assert!(strings_equal("naïve", "naïve"));
}
