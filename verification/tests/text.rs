use memex::json;
use memex::json::Json;
use memex::text;
use memex::text_map::TextMap;

#[test]
fn trimming_takes_all_unicode_white_space() {
    assert_eq!(text::trim(" \t\n\u{3000}a b\u{2003}\u{A0}"), "a b");
    assert_eq!(text::trim("\u{200B}a"), "\u{200B}a");
    assert!(text::is_blank(" \u{2029}\r\n"));
    assert!(text::is_blank(""));
    assert!(!text::is_blank(" . "));
}

#[test]
fn trimming_agrees_with_the_standard_library() {
    for code in 0u32..0x3100 {
        if let Some(c) = char::from_u32(code) {
            assert_eq!(text::is_white(c), c.is_whitespace(), "{:x}", code);
        }
    }
}

#[test]
fn parts_of_texts_are_found() {
    assert!(text::contains("a/.hermes/b", ".hermes/"));
    assert!(!text::contains("hermes", ".hermes"));
    assert!(text::contains("anything", ""));
    assert!(text::starts_with("héllo", "hé"));
    assert!(!text::starts_with("h", "hé"));
    assert!(text::ends_with("state.db-wal", "-wal"));
    assert!(!text::ends_with("wal", "-wal"));
    assert_eq!(text::strip_prefix("\u{0}json:[]", "\u{0}json:"), Some("[]"));
    assert_eq!(text::strip_prefix("json:[]", "\u{0}json:"), None);
}

#[test]
fn numbers_are_written_in_decimal_and_hexadecimal() {
    assert_eq!(text::to_decimal(0), "0");
    assert_eq!(text::to_decimal(1_234_567_890), "1234567890");
    assert_eq!(text::to_decimal(u64::MAX), "18446744073709551615");
    let mut hex = String::new();
    text::push_hex(&mut hex, 0xBEEF, 8);
    assert_eq!(hex, "0000beef");
    let mut widest = String::new();
    text::push_hex(&mut widest, u128::MAX, 32);
    assert_eq!(widest, "f".repeat(32));
}

#[test]
fn texts_are_joined() {
    let parts = vec!["a".to_string(), "".to_string(), "c".to_string()];
    assert_eq!(text::join(&parts, "\n"), "a\n\nc");
    assert_eq!(text::join(&Vec::new(), "\n"), "");
}

#[test]
fn text_map_keeps_one_value_per_key() {
    let mut map: TextMap<u64> = TextMap::new();
    assert_eq!(map.insert("a".to_string(), 1), None);
    assert_eq!(map.insert("b".to_string(), 2), None);
    assert_eq!(map.insert("a".to_string(), 3), Some(1));
    assert_eq!(map.len(), 2);
    assert_eq!(map.get("a"), Some(&3));
    assert!(map.contains_key("b"));
    assert_eq!(map.remove("a"), Some(3));
    assert_eq!(map.remove("a"), None);
    assert_eq!(map.len(), 1);
    assert_eq!(map.get("a"), None);
}

#[test]
fn json_is_parsed_and_rendered() {
    let value = json::parse(r#" {"b": [1, true, null, "x"], "a": {"c": 1.5}} "#).unwrap();
    assert_eq!(value.render(), r#"{"a":{"c":1.5},"b":[1,true,null,"x"]}"#);
    assert!(matches!(value.get("b"), Some(Json::List(_))));
    assert!(value.get("c").is_none());
    assert!(value.as_text().is_none());
    assert!(json::parse("{").is_none());
    assert!(json::parse("").is_none());
}

#[test]
fn json_bytes_have_to_be_text() {
    assert_eq!(json::parse_bytes(b"\"x\"").unwrap().as_text(), Some("x"));
    assert!(json::parse_bytes(b"\"\xFF\"").is_err());
    assert!(json::parse_bytes(b"").unwrap_err().is_eof());
}

#[test]
fn the_last_of_two_equal_keys_counts() {
    let value = json::parse(r#"{"k":"first","k":"last"}"#).unwrap();
    assert_eq!(value.text_at("k"), Some("last"));
}
