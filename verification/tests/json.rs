use hub::json::{str_member_of, strip_nuls_json, to_pretty, Json};

fn sample() -> Json {
    Json::Object(vec![
        ("name".to_string(), Json::Str("a\"b\n".to_string())),
        ("n".to_string(), Json::Number("1.5".to_string())),
        ("list".to_string(), Json::Array(vec![Json::Null, Json::Bool(false)])),
    ])
}

#[test]
fn compact_text_escapes_strings_like_serde_json() {
    assert_eq!(sample().to_compact(), "{\"name\":\"a\\\"b\\n\",\"n\":1.5,\"list\":[null,false]}");
    assert_eq!(Json::Str("\u{1}é".to_string()).to_compact(), serde_json::to_string("\u{1}é").unwrap());
}

#[test]
fn pretty_text_indents_by_two_spaces() {
    let v = Json::Object(vec![("a".to_string(), Json::Array(vec![Json::Number("1".to_string())]))]);
    assert_eq!(to_pretty(&v), "{\n  \"a\": [\n    1\n  ]\n}");
}

#[test]
fn members_are_looked_up_by_key() {
    let v = sample();
    assert_eq!(str_member_of(&v, "name"), Some("a\"b\n"));
    assert_eq!(str_member_of(&v, "n"), None);
    assert!(v.get("missing").is_none());
    assert_eq!(v.get("list").map(|l| matches!(l, Json::Array(_))), Some(true));
    assert_eq!(Json::Null.get("x").is_none(), true);
}

#[test]
fn nul_characters_are_removed_from_every_string() {
    let mut v = Json::Object(vec![(
        "k\0".to_string(),
        Json::Array(vec![Json::Str("a\0b".to_string())]),
    )]);
    strip_nuls_json(&mut v);
    assert_eq!(v.to_compact(), "{\"k\\u0000\":[\"ab\"]}");
    let copy = v.deep_clone();
    assert_eq!(copy.to_compact(), v.to_compact());
}
