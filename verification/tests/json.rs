use acli_rust::json::{object_get, object_index, to_json_text, JsonValue};
use serde_json::Value;

fn s(t: &str) -> JsonValue {
    JsonValue::Str(t.to_string())
}

#[test]
fn compact_json_text_matches_serde_json() {
    let text = "a\"b\\c\n\t\r\u{8}\u{c}\u{1}\u{1f}é/<";
    let v = JsonValue::Array(vec![
        s(text),
        JsonValue::Null,
        JsonValue::Bool(false),
        JsonValue::Number("-15".to_string()),
        JsonValue::Object(vec![("b".to_string(), JsonValue::Bool(true)), ("a".to_string(), JsonValue::Array(vec![]))]),
    ]);
    let mut ordered = String::from("{\"b\":true,");
    ordered.push_str("\"a\":[]}");
    let expected_items = vec![
        serde_json::to_string(&Value::String(text.to_string())).unwrap(),
        "null".to_string(),
        "false".to_string(),
        serde_json::to_string(&Value::Number(serde_json::Number::from(-15))).unwrap(),
        ordered,
    ];
    assert_eq!(to_json_text(&v), format!("[{}]", expected_items.join(",")));
    assert_eq!(to_json_text(&s(text)), "\"a\\\"b\\\\c\\n\\t\\r\\b\\f\\u0001\\u001fé/<\"");
}

#[test]
fn object_lookup_finds_the_first_entry() {
    let m = vec![("k".to_string(), s("first")), ("k".to_string(), s("second")), ("x".to_string(), JsonValue::Null)];
    assert_eq!(object_index(&m, "k"), Some(0));
    assert_eq!(object_index(&m, "x"), Some(2));
    assert_eq!(object_index(&m, "y"), None);
    match object_get(&m, "k") {
        Some(JsonValue::Str(t)) => assert_eq!(t, "first"),
        _ => panic!("expected the first entry"),
    }
}
