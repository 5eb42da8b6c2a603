use my_claw::json::{clone_range, json_of_value, parse_json, value_of_json, Json, JsonObject};

#[test]
fn values_are_parsed_and_printed() {
    let source = r#" { "b" : [1, -2.5, true, null, "x\né"], "a": {} , "b2": 1e3 } "#;
    let value = parse_json(source).unwrap();
    assert_eq!(
        value.to_compact_string(),
        "{\"a\":{},\"b\":[1,-2.5,true,null,\"x\\n\u{e9}\"],\"b2\":1000.0}"
    );
    assert_eq!(
        value.to_pretty_string(),
        "{\n  \"a\": {},\n  \"b\": [\n    1,\n    -2.5,\n    true,\n    null,\n    \"x\\n\u{e9}\"\n  ],\n  \"b2\": 1000.0\n}"
    );
    assert_eq!(parse_json(&value.to_pretty_string()).unwrap(), value);
}

#[test]
fn bad_texts_are_refused() {
    for source in ["", "{", "[1,]", "{\"a\":}", "tru", "1 2", "'a'"] {
        assert!(parse_json(source).is_err(), "{source}");
    }
    assert_eq!(parse_json("").unwrap_err(), serde_json::from_str::<serde_json::Value>("").unwrap_err().to_string());
}

#[test]
fn members_are_kept_by_key() {
    let object = JsonObject::new()
        .with("b", Json::uint(1))
        .with("a", Json::text("x"))
        .with("b", Json::uint(2));
    assert_eq!(object.len(), 2);
    assert_eq!((object.key_at(0), object.key_at(1)), ("a", "b"));
    assert_eq!(object.value_at(1).as_u64(), Some(2));
    assert_eq!(object.get("a").and_then(|v| v.as_str()), Some("x"));
    assert!(object.get("c").is_none());
    let less = object.without("b").without("c");
    assert_eq!(Json::Object(less).to_compact_string(), r#"{"a":"x"}"#);
    assert_eq!(
        parse_json(r#"{"a":1,"a":2}"#).unwrap().get_u64("a"),
        Some(2)
    );
}

#[test]
fn values_are_read() {
    let value = parse_json(r#"{"s":"t","n":7,"f":1.5,"neg":-1,"l":[1,2],"z":null}"#).unwrap();
    assert_eq!(value.get_str("s"), Some("t"));
    assert_eq!(value.get_str("n"), None);
    assert_eq!(value.get_u64("n"), Some(7));
    assert_eq!(value.get_u64("f"), None);
    assert_eq!(value.get_u64("neg"), None);
    assert_eq!(value.get_array("l").map(|l| l.len()), Some(2));
    assert!(value.get_array("s").is_none());
    assert_eq!(value.get("z"), Some(&Json::Null));
    assert!(Json::Null.get("s").is_none());
    assert_eq!(Json::optional_text(&None), Json::Null);
    assert_eq!(Json::optional_text(&Some("x".to_string())).as_str(), Some("x"));
    let items = value.get_array("l").unwrap();
    assert_eq!(clone_range(items, 1, 2), vec![Json::uint(2)]);
    assert_eq!(
        Json::empty_object().with("k", Json::Bool(true)).without("k").to_compact_string(),
        "{}"
    );
    assert_eq!(Json::uint(u64::MAX).to_compact_string(), "18446744073709551615");
}

#[test]
fn values_of_the_two_forms_agree() {
    let source = r#"{"a":[{"x":1},"two",3.25,false,null]}"#;
    let value: serde_json::Value = serde_json::from_str(source).unwrap();
    let json = json_of_value(value.clone());
    assert_eq!(json, parse_json(source).unwrap());
    assert_eq!(value_of_json(&json), value);
    assert_eq!(json.to_compact_string(), value.to_string());
}

#[test]
fn values_are_read_back_up_to_a_depth() {
    let nested = |layers: usize| (0..layers).fold(Json::uint(1), |v, _| Json::array(vec![v]));
    let deep = nested(127);
    assert_eq!(parse_json(&deep.to_compact_string()).unwrap(), deep);
    assert_eq!(parse_json(&deep.to_pretty_string()).unwrap(), deep);
    assert!(parse_json(&nested(128).to_compact_string()).is_err());
    let odd = Json::text("\u{0}\u{1f}\u{7f}\u{2028}\"\\\u{10ffff}");
    assert_eq!(parse_json(&odd.to_compact_string()).unwrap(), odd);
    assert_eq!(odd.to_compact_string().lines().count(), 1);
}
