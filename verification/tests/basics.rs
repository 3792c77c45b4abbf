use constantinople::numbers::div_ceil;
use constantinople::order::{bytes_eq, bytes_le, text_le};
use constantinople::ring::next_index;
use constantinople::text::{
    contains, decimal_text, find_first, find_last, join, push_hexadecimal, starts_with,
    trim_trailing_slashes,
};

#[test]
fn numerals_have_no_leading_zeros() {
    assert_eq!(decimal_text(0), "0");
    assert_eq!(decimal_text(u64::MAX), "18446744073709551615");
    let mut text = String::new();
    push_hexadecimal(&mut text, 48_879);
    assert_eq!(text, "beef");
}

#[test]
fn lists_are_joined() {
    assert_eq!(join(&[], ","), "");
    assert_eq!(
        join(&["a".to_string(), "b".to_string(), "c".to_string()], ","),
        "a,b,c"
    );
}

#[test]
fn texts_are_searched() {
    assert!(contains("error (503): mempool full", "mempool full"));
    assert!(!contains("error", "errors"));
    assert!(contains("", ""));
    assert!(starts_with("request failed: x", "request failed:"));
    assert!(!starts_with("a request failed:", "request failed:"));
    let chars: Vec<char> = "a:b:c".chars().collect();
    assert_eq!(find_first(&chars, ':'), Some(1));
    assert_eq!(find_last(&chars, ':'), Some(3));
    assert_eq!(find_last(&chars, '/'), None);
    assert_eq!(trim_trailing_slashes("http://a///"), "http://a");
    assert_eq!(trim_trailing_slashes("///"), "");
}

#[test]
fn orders_are_lexicographic() {
    assert!(bytes_le(&vec![1, 2], &vec![1, 2, 0]));
    assert!(!bytes_le(&vec![2], &vec![1, 9]));
    assert!(bytes_eq(&vec![1], &vec![1]));
    assert!(text_le("ab", "b"));
}

#[test]
fn rounding_and_rings() {
    assert_eq!(div_ceil(10, 3), 4);
    assert_eq!(div_ceil(9, 3), 3);
    assert_eq!(next_index(1, 3), 2);
    assert_eq!(next_index(2, 3), 0);
}
