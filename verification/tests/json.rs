use issue_board::json::Json;

fn s(x: &str) -> String {
    x.to_string()
}

#[test]
fn null_and_booleans_serialize() {
    assert_eq!(Json::Null.to_text(), "null");
    assert_eq!(Json::Bool(true).to_text(), "true");
    assert_eq!(Json::Bool(false).to_text(), "false");
}

#[test]
fn numbers_carry_their_literal_text() {
    assert_eq!(Json::Number(s("42")).to_text(), "42");
}

#[test]
fn strings_serialize_with_escapes() {
    assert_eq!(Json::Str(s("plain")).to_text(), "\"plain\"");
    assert_eq!(Json::Str(s("a\"b")).to_text(), "\"a\\\"b\"");
    assert_eq!(Json::Str(s("a\\b")).to_text(), "\"a\\\\b\"");
}

#[test]
fn strings_escape_control_characters() {
    assert_eq!(Json::Str(s("a\nb")).to_text(), "\"a\\nb\"");
    assert_eq!(Json::Str(s("a\tb")).to_text(), "\"a\\tb\"");
    assert_eq!(Json::Str(s("a\rb")).to_text(), "\"a\\rb\"");
    assert_eq!(Json::Str(s("a\u{1}b")).to_text(), "\"a\\u0001b\"");
    assert_eq!(Json::Str(s("a\u{1f}b")).to_text(), "\"a\\u001fb\"");
}

#[test]
fn serialized_text_parses_back_as_json() {
    let v = Json::Object(vec![
        (s("text"), Json::Str(s("line one\nline \"two\"\t\\ \u{2}"))),
        (s("items"), Json::Array(vec![Json::Null, Json::Number(s("3"))])),
    ]);
    let parsed: serde_json::Value = serde_json::from_str(&v.to_text()).unwrap();
    assert_eq!(parsed["text"].as_str().unwrap(), "line one\nline \"two\"\t\\ \u{2}");
    assert_eq!(parsed["items"][1].as_i64().unwrap(), 3);
}

#[test]
fn arrays_serialize_comma_separated() {
    let a = Json::Array(vec![Json::Null, Json::Bool(true), Json::Str(s("x"))]);
    assert_eq!(a.to_text(), "[null,true,\"x\"]");
    assert_eq!(Json::Array(Vec::new()).to_text(), "[]");
}

#[test]
fn objects_serialize_in_entry_order() {
    let o = Json::Object(vec![
        (s("b"), Json::Number(s("1"))),
        (s("a"), Json::Str(s("v"))),
    ]);
    assert_eq!(o.to_text(), "{\"b\":1,\"a\":\"v\"}");
    assert_eq!(Json::Object(Vec::new()).to_text(), "{}");
}

#[test]
fn get_finds_the_first_matching_key() {
    let o = Json::Object(vec![
        (s("k"), Json::Str(s("first"))),
        (s("k"), Json::Str(s("second"))),
    ]);
    match o.get("k") {
        Some(Json::Str(v)) => assert_eq!(v, "first"),
        _ => panic!("expected the first binding"),
    }
    assert!(o.get("absent").is_none());
}

#[test]
fn get_str_requires_a_string_member() {
    let o = Json::Object(vec![(s("n"), Json::Number(s("1"))), (s("t"), Json::Str(s("v")))]);
    assert!(o.get_str("n").is_none());
    assert_eq!(o.get_str("t").unwrap(), "v");
    assert!(Json::Null.get_str("t").is_none());
}
