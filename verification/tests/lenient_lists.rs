use stele::json::Json;
use stele::lenient::{string_or_string_vec, string_or_string_vec_opt, string_or_vec, string_or_vec_opt, ListSource};

fn text(s: &str) -> Json {
    Json::Str(s.to_string())
}

#[test]
fn single_string_is_one_item() {
    assert_eq!(string_or_string_vec(text("[\"a\"]")).unwrap(), vec!["[\"a\"]".to_string()]);
}

#[test]
fn array_of_strings_is_kept() {
    let v = Json::Array(vec![text("a"), text("b")]);
    assert_eq!(string_or_string_vec(v).unwrap(), vec!["a".to_string(), "b".to_string()]);
}

#[test]
fn non_string_item_is_refused() {
    let v = Json::Array(vec![text("a"), Json::Int(1)]);
    assert_eq!(string_or_string_vec(v).unwrap_err(), "expected string in array, got number");
}

#[test]
fn other_kinds_are_refused() {
    assert_eq!(string_or_string_vec(Json::Bool(true)).unwrap_err(), "expected string or array of strings, got boolean");
    assert_eq!(
        string_or_string_vec_opt(Json::Object(vec![])).unwrap_err(),
        "expected string, array of strings, or null, got object"
    );
}

#[test]
fn null_is_no_list() {
    assert!(string_or_string_vec_opt(Json::Null).unwrap().is_none());
    assert_eq!(string_or_string_vec_opt(text("x")).unwrap(), Some(vec!["x".to_string()]));
}

#[test]
fn list_sources() {
    assert!(matches!(string_or_vec(text("[1]")), Ok(ListSource::Encoded(s)) if s == "[1]"));
    assert!(matches!(string_or_vec(Json::Array(vec![Json::Int(1)])), Ok(ListSource::Items(v)) if v.len() == 1));
    assert_eq!(string_or_vec(Json::Null).err().unwrap(), "expected array or string-encoded array, got null");
    assert!(matches!(string_or_vec_opt(Json::Null), Ok(None)));
    assert_eq!(
        string_or_vec_opt(Json::Int(2)).err().unwrap(),
        "expected array, string-encoded array, or null, got number"
    );
}
