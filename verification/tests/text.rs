use durable_streams_kafka_bridge::text::{
    contains_text, eq_ignore_ascii_case, is_blank, parse_u64, remove_line_breaks, replace_text,
    split_text, to_ascii_lowercase, trim, trim_slashes,
};
use durable_streams_kafka_bridge::text_map::{text_precedes, TextMap};

#[test]
fn texts_are_trimmed() {
    assert_eq!(trim(" \t a b \u{3000}\n"), "a b");
    assert_eq!(trim_slashes("//a/b/"), "a/b");
    assert_eq!(trim_slashes("///"), "");
    assert!(is_blank(" \u{a0}\n"));
    assert!(is_blank(""));
    assert!(!is_blank(" x "));
}

#[test]
fn texts_are_searched_and_replaced() {
    assert!(contains_text("invalid offset", "offset"));
    assert!(contains_text("x", ""));
    assert!(!contains_text("off", "offset"));
    assert_eq!(replace_text("{path}-{path}", "{path}", "a"), "a-a");
    assert_eq!(replace_text("aaa", "aa", "b"), "ba");
    assert_eq!(remove_line_breaks("a\r\nb\nc"), "abc");
    assert_eq!(split_text("a..b", '.'), vec!["a", "", "b"]);
    assert_eq!(split_text("", '.'), vec![""]);
}

#[test]
fn letters_compare_without_case() {
    assert_eq!(to_ascii_lowercase("OFFset\u{c4}"), "offset\u{c4}");
    assert!(eq_ignore_ascii_case("TRUE", "true"));
    assert!(!eq_ignore_ascii_case("\u{c4}", "\u{e4}"));
}

#[test]
fn numbers_are_read() {
    assert_eq!(parse_u64("12"), Some(12));
    assert_eq!(parse_u64("+7"), Some(7));
    assert_eq!(parse_u64("007"), Some(7));
    assert_eq!(parse_u64("18446744073709551615"), Some(u64::MAX));
    assert_eq!(parse_u64("18446744073709551616"), None);
    assert_eq!(parse_u64(""), None);
    assert_eq!(parse_u64("+"), None);
    assert_eq!(parse_u64("-1"), None);
    assert_eq!(parse_u64(" 1"), None);
}

#[test]
fn maps_keep_their_keys_in_order() {
    let mut map: TextMap<u64> = TextMap::new();
    assert!(map.insert("b".to_string(), 1));
    assert!(map.insert("a".to_string(), 2));
    assert!(map.insert("ab".to_string(), 3));
    assert!(!map.insert("b".to_string(), 4));
    assert_eq!(map.len(), 3);
    assert_eq!(map.at(0), ("a", &2));
    assert_eq!(map.at(1), ("ab", &3));
    assert_eq!(map.at(2), ("b", &4));
    assert_eq!(map.get("b"), Some(&4));
    assert_eq!(map.get("c"), None);
    assert!(map.contains_key("ab"));
}

#[test]
fn texts_are_ordered_by_their_first_difference() {
    assert!(text_precedes("", "a"));
    assert!(text_precedes("Z", "a"));
    assert!(text_precedes("a", "aa"));
    assert!(!text_precedes("aa", "a"));
    assert!(!text_precedes("a", "a"));
    assert!(text_precedes("z", "\u{e9}"));
}
