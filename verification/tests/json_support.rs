use stele::json::Json;

fn obj(members: Vec<(&str, Json)>) -> Json {
    Json::Object(members.into_iter().map(|(k, v)| (k.to_string(), v)).collect())
}

fn text(s: &str) -> Json {
    Json::Str(s.to_string())
}

#[test]
fn json_get_finds_first_member() {
    let v = obj(vec![("a", text("x")), ("b", Json::Int(3))]);
    assert!(matches!(v.get("a"), Some(Json::Str(s)) if s == "x"));
    assert!(matches!(v.get("b"), Some(Json::Int(3))));
    assert!(v.get("c").is_none());
    assert!(text("a").get("a").is_none());
}

#[test]
fn json_scalars_read_back() {
    assert_eq!(Json::Bool(true).as_bool(), Some(true));
    assert_eq!(Json::Int(-4).as_i64(), Some(-4));
    assert_eq!(Json::UInt(4).as_i64(), None);
    assert_eq!(text("hi").as_str(), Some("hi"));
    assert_eq!(Json::Null.as_str(), None);
}

#[test]
fn value_kinds_are_named() {
    assert_eq!(stele::json::value_type_name(&Json::Null), "null");
    assert_eq!(stele::json::value_type_name(&Json::Bool(false)), "boolean");
    assert_eq!(stele::json::value_type_name(&Json::Decimal("1.5".to_string())), "number");
    assert_eq!(stele::json::value_type_name(&Json::Array(vec![])), "array");
    assert_eq!(stele::json::value_type_name(&obj(vec![])), "object");
}
