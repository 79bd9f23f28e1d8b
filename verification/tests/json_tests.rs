use resend_cli::json::{json_to_string, parse_json, JsonValue};

fn obj(members: Vec<(&str, JsonValue)>) -> JsonValue {
    JsonValue::Obj(
        members
            .into_iter()
            .map(|(k, v)| (k.to_string(), v))
            .collect(),
    )
}

fn s(text: &str) -> JsonValue {
    JsonValue::Str(text.to_string())
}

#[test]
fn test_serialize_nested() {
    let doc = obj(vec![
        ("name", s("n")),
        ("count", JsonValue::Int(-12)),
        ("ok", JsonValue::Bool(true)),
        ("gone", JsonValue::Null),
        ("items", JsonValue::Arr(vec![s("a"), JsonValue::Int(3)])),
    ]);
    assert_eq!(
        json_to_string(&doc),
        "{\"name\":\"n\",\"count\":-12,\"ok\":true,\"gone\":null,\"items\":[\"a\",3]}"
    );
}

#[test]
fn test_serialize_escapes() {
    let doc = s("a\"b\\c\nd\te\u{1}");
    assert_eq!(json_to_string(&doc), "\"a\\\"b\\\\c\\nd\\te\\u0001\"");
}

#[test]
fn test_parse_basic_values() {
    assert!(matches!(parse_json("null"), Some(JsonValue::Null)));
    assert!(matches!(parse_json("true"), Some(JsonValue::Bool(true))));
    assert!(matches!(parse_json("false"), Some(JsonValue::Bool(false))));
    assert!(matches!(parse_json("42"), Some(JsonValue::Int(42))));
    assert!(matches!(parse_json("-7"), Some(JsonValue::Int(-7))));
    assert!(matches!(parse_json("0"), Some(JsonValue::Int(0))));
    match parse_json("\"hi\"") {
        Some(JsonValue::Str(text)) => assert_eq!(text, "hi"),
        _ => panic!("expected a string"),
    }
}

#[test]
fn test_parse_whitespace_and_nesting() {
    let doc = parse_json(" {\n  \"data\" : [ {\"id\": \"a\"} , {\"id\": \"b\"} ]\n} ").unwrap();
    match &doc {
        JsonValue::Obj(members) => {
            assert_eq!(members.len(), 1);
            assert_eq!(members[0].0, "data");
            match &members[0].1 {
                JsonValue::Arr(items) => assert_eq!(items.len(), 2),
                _ => panic!("expected an array"),
            }
        }
        _ => panic!("expected an object"),
    }
}

#[test]
fn test_parse_string_escapes() {
    match parse_json("\"a\\u0041\\n\\t\\\\\\\"\\/\"") {
        Some(JsonValue::Str(text)) => assert_eq!(text, "aA\n\t\\\"/"),
        _ => panic!("expected a string"),
    }
}

#[test]
fn test_parse_rejects_malformed_input() {
    assert!(parse_json("").is_none());
    assert!(parse_json("{").is_none());
    assert!(parse_json("[1,]").is_none());
    assert!(parse_json("{\"a\":}").is_none());
    assert!(parse_json("null garbage").is_none());
    assert!(parse_json("01").is_none());
    assert!(parse_json("1.5").is_none());
    assert!(parse_json("1e3").is_none());
    assert!(parse_json("\"unterminated").is_none());
    assert!(parse_json("\"bad \\q escape\"").is_none());
    assert!(parse_json("\"\\ud800\"").is_none());
    assert!(parse_json("nul").is_none());
}

#[test]
fn test_parse_serialize_round_trip() {
    let texts = [
        "{\"from\":\"a@x.com\",\"to\":[\"b@y.com\"],\"subject\":\"Hi\"}",
        "[1,2,3]",
        "{\"nested\":{\"deep\":[null,true,\"x\"]}}",
        "-9",
    ];
    for text in texts {
        let doc = parse_json(text).unwrap();
        assert_eq!(json_to_string(&doc), text);
    }
}

#[test]
fn test_get_finds_first_member() {
    let doc = obj(vec![("a", JsonValue::Int(1)), ("b", JsonValue::Int(2))]);
    assert!(matches!(doc.get("a"), Some(JsonValue::Int(1))));
    assert!(matches!(doc.get("b"), Some(JsonValue::Int(2))));
    assert!(doc.get("c").is_none());
    assert!(JsonValue::Null.get("a").is_none());
}
