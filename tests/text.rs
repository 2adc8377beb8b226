use tuya_mqtt::text::{split_str, str_eq_ignore_ascii_case, str_equal};

#[test]
fn split_keeps_empty_fields() {
    assert_eq!(split_str("a/b/c", '/'), vec!["a", "b", "c"]);
    assert_eq!(split_str("", '/'), vec![""]);
    assert_eq!(split_str("/a//", '/'), vec!["", "a", "", ""]);
    assert_eq!(split_str("äö/ü", '/'), vec!["äö", "ü"]);
}

#[test]
fn ascii_case_is_ignored() {
    assert!(str_eq_ignore_ascii_case("On", "oN"));
    assert!(!str_eq_ignore_ascii_case("on", "one"));
    assert!(!str_eq_ignore_ascii_case("Ä", "ä"));
    assert!(str_equal("tuya", "tuya"));
    assert!(!str_equal("tuya", "Tuya"));
}
