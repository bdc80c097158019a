use vodozemac_ffi::json::{
    json_number_checked, json_quote_checked, write_group_plaintext, write_identity_keys,
    write_object, write_olm_message,
};
use vodozemac_ffi::text::str_less;

#[test]
fn quoting_escapes_like_serde_json() {
    assert_eq!(json_quote_checked("abc").unwrap(), "\"abc\"");
    assert_eq!(json_quote_checked("a\"b\\c\n").unwrap(), "\"a\\\"b\\\\c\\n\"");
    assert_eq!(json_quote_checked("").unwrap(), "\"\"");
}

#[test]
fn control_characters_are_escaped() {
    assert_eq!(
        json_quote_checked("\u{8}\t\u{c}\r\u{1}\u{1f}\u{7f}é").unwrap(),
        "\"\\b\\t\\f\\r\\u0001\\u001f\u{7f}é\""
    );
}

#[test]
fn numbers_are_decimal() {
    assert_eq!(json_number_checked(0).unwrap(), "0");
    assert_eq!(json_number_checked(12).unwrap(), "12");
    assert_eq!(json_number_checked(4294967295).unwrap(), "4294967295");
}

#[test]
fn objects_are_compact_and_ordered() {
    let members = vec![
        ("b".to_string(), "1".to_string()),
        ("a".to_string(), "\"x\"".to_string()),
    ];
    assert_eq!(write_object(&members).unwrap(), "{\"b\":1,\"a\":\"x\"}");
    assert_eq!(write_object(&Vec::new()).unwrap(), "{}");
}

#[test]
fn identity_keys_object() {
    assert_eq!(
        write_identity_keys("C", "E").unwrap(),
        "{\"curve25519\":\"C\",\"ed25519\":\"E\"}"
    );
}

#[test]
fn olm_message_object() {
    assert_eq!(write_olm_message(0, "Ab+/").unwrap(), "{\"type\":0,\"body\":\"Ab+/\"}");
    assert_eq!(write_olm_message(1, "x").unwrap(), "{\"type\":1,\"body\":\"x\"}");
}

#[test]
fn group_plaintext_object() {
    assert_eq!(
        write_group_plaintext("hi", 7).unwrap(),
        "{\"plaintext\":\"hi\",\"messageIndex\":7}"
    );
}

#[test]
fn string_order_matches_std() {
    let words = ["", "a", "A", "ab", "b", "AAAAAQ", "AAAAAg", "é", "z"];
    for x in words.iter() {
        for y in words.iter() {
            assert_eq!(str_less(x, y), x < y, "{:?} {:?}", x, y);
        }
    }
}
