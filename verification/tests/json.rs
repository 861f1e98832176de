use b10x_mcp::json::Json;

const DOCUMENT: &str = r#"{"z":[1,-2,3.5,1e300,18446744073709551615,true,false,null],"a":{"q":"\u0000\"\\/\n\u2028é😀","":{}},"b":[]}"#;

#[test]
fn values_pass_through_the_outside_crate_unchanged() {
    let value: serde_json::Value = serde_json::from_str(DOCUMENT).unwrap();
    let json = Json::from_value(&value);
    assert_eq!(json.encode(), serde_json::to_vec(&value).unwrap());
    assert_eq!(json.pretty(), serde_json::to_string_pretty(&value).unwrap());
    assert_eq!(json, Json::parse(DOCUMENT).unwrap());
    assert_eq!(json.copy(), json);
    assert_eq!(json.clone(), json);
}

#[test]
fn members_are_found_by_key() {
    let json = Json::parse(DOCUMENT).unwrap();
    assert!(json.is_object());
    assert!(!json.get("b").unwrap().is_object());
    assert_eq!(json.get("a").unwrap().get("q").unwrap().as_text(), Some("\0\"\\/\n\u{2028}é😀"));
    assert_eq!(json.get("a").unwrap().get("").unwrap(), &Json::Object(Vec::new()));
    assert!(json.get("c").is_none());
    assert!(json.get("b").unwrap().get("a").is_none());
    assert_eq!(json.get_or("c", "b"), Some(&Json::Array(Vec::new())));
    assert_eq!(json.get_or("b", "a"), Some(&Json::Array(Vec::new())));
    assert!(json.get_or("c", "d").is_none());
    assert_eq!(json.get("b").unwrap().as_text(), None);
}

#[test]
fn texts_that_spell_no_value_are_refused_by_reason() {
    let expected = serde_json::from_str::<serde_json::Value>("{").unwrap_err().to_string();
    assert_eq!(Json::parse("{").unwrap_err(), expected);
    assert!(Json::parse("").is_err());
    assert!(Json::parse("1 2").is_err());
}

#[test]
fn later_members_count() {
    let json = Json::parse(r#"{"a":1,"a":2}"#).unwrap();
    assert_eq!(json.encode(), br#"{"a":2}"#.to_vec());
}

#[test]
fn later_members_count_where_a_key_is_listed_twice() {
    let number = |n: u64| Json::Number(n.into());
    let json = Json::Object(vec![
        ("b".to_owned(), number(1)),
        ("a".to_owned(), number(2)),
        ("b".to_owned(), Json::Text("last".to_owned())),
        ("a".to_owned(), number(3)),
        ("c".to_owned(), Json::Null),
    ]);
    assert_eq!(json.encode(), br#"{"a":3,"b":"last","c":null}"#.to_vec());
    assert_eq!(json.pretty(), "{\n  \"a\": 3,\n  \"b\": \"last\",\n  \"c\": null\n}");
    assert_eq!(json.get("b").unwrap().as_text(), Some("last"));
    assert_eq!(json.to_value()["a"], 3);
}
