use mirror_store::json::{array_items, parse_bytes, parse_json_strings, parse_text, Json};

#[test]
fn values_keep_their_content() {
    let json = parse_text(r#"{"b": [1, -2, 2.5], "a": {"x": null}, "t": "s", "f": true}"#).unwrap();
    let Json::Object(members) = &json else { panic!("not an object") };
    let keys: Vec<&str> = members.iter().map(|m| m.key.as_str()).collect();
    assert_eq!(keys, vec!["a", "b", "f", "t"]);
    assert_eq!(json.text("t"), Some("s".to_string()));
    assert_eq!(json.text("b"), None);
    assert_eq!(json.text("missing"), None);
    assert_eq!(json.text_or_empty("f"), "");
    assert!(matches!(json.member("f").unwrap().value, Json::Bool(true)));
    let Json::Array(items) = &json.member("b").unwrap().value else { panic!("not an array") };
    assert!(matches!(&items[0], Json::Number(Some(1), text) if text == "1"));
    assert!(matches!(&items[1], Json::Number(Some(-2), text) if text == "-2"));
    assert!(matches!(&items[2], Json::Number(None, text) if text == "2.5"));
    let Json::Object(inner) = &json.member("a").unwrap().value else { panic!("not an object") };
    assert!(matches!(inner[0].value, Json::Null));
}

#[test]
fn integers_outside_the_range_are_none() {
    let json = parse_text(r#"{"max": 9223372036854775807, "over": 9223372036854775808}"#).unwrap();
    assert_eq!(json.integer("max"), Some(i64::MAX));
    assert_eq!(json.integer("over"), None);
    assert_eq!(json.integer("missing"), None);
}

#[test]
fn of_duplicate_keys_the_last_is_read() {
    let json = parse_text(r#"{"k": 1, "k": 2}"#).unwrap();
    assert_eq!(json.integer("k"), Some(2));
}

#[test]
fn errors_have_the_parsers_message() {
    let expected = serde_json::from_str::<serde_json::Value>("{").unwrap_err().to_string();
    assert_eq!(parse_text("{").err(), Some(expected.clone()));
    assert_eq!(parse_bytes(b"{").err(), Some(expected));
    let invalid = serde_json::from_slice::<serde_json::Value>(b"\"\xff\"").unwrap_err().to_string();
    assert_eq!(parse_bytes(b"\"\xff\"").err(), Some(invalid));
}

#[test]
fn lists_of_strings() {
    assert_eq!(parse_json_strings(r#"["Game", "Audio"]"#), vec!["Game", "Audio"]);
    assert!(parse_json_strings("[]").is_empty());
    assert!(parse_json_strings(r#"["Game", 1]"#).is_empty());
    assert!(parse_json_strings("").is_empty());
}

#[test]
fn items_of_arrays_only() {
    assert_eq!(array_items(parse_text("[1, 2]")).len(), 2);
    assert!(array_items(parse_text("{}")).is_empty());
    assert!(array_items(parse_text("[")).is_empty());
}
