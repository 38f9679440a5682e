//! JSON values.
use cadmus::json::{Number, Value};

fn json(text: &str) -> Value {
    Value::parse(text).expect("valid JSON")
}

#[test]
fn documents_are_read_one_level_deep() {
    assert_eq!(json("null"), Value::Null);
    assert_eq!(json(" true "), Value::Bool(true));
    assert_eq!(json("\"a\\u0041\""), Value::String("aA".into()));
    assert_eq!(
        json("18446744073709551615"),
        Value::Number(Number {
            unsigned: Some(u64::MAX),
            text: "18446744073709551615".into()
        })
    );
    assert_eq!(
        json("[1, {\"b\": 2}]"),
        Value::Array(vec!["1".into(), "{\"b\":2}".into()])
    );
    assert_eq!(
        json("{\"z\": 1, \"a\": [ ]}"),
        Value::Object(vec![("a".into(), "[]".into()), ("z".into(), "1".into())])
    );
    assert!(Value::parse("{not json").is_err());
}

#[test]
fn fields_are_read_on_demand() {
    let value = json("{\"error\": {\"message\": \"no\"}, \"n\": -1}");
    let error = value.get("error").expect("an object");
    assert_eq!(
        error.get("message").as_ref().and_then(|m| m.as_str()),
        Some("no")
    );
    assert_eq!(value.get("n").and_then(|n| n.as_u64()), None);
    assert_eq!(value.get("absent"), None);
    assert_eq!(json("[1]").get("0"), None);
}

#[test]
fn strings_are_escaped_as_json_has_it() {
    assert_eq!(
        Value::string("a\"b\\c\n\r\t\u{8}\u{c}\u{1f}é").render(),
        "\"a\\\"b\\\\c\\n\\r\\t\\b\\f\\u001fé\""
    );
}

#[test]
fn rendering_gives_back_what_was_read() {
    for text in [
        "null",
        "false",
        "-1.5",
        "\"x\"",
        "[]",
        "[1,[2]]",
        "{}",
        "{\"a\":{\"b\":1},\"c\":[]}",
    ] {
        assert_eq!(json(text).render(), text);
    }
}

#[test]
fn merging_keeps_the_keys_in_order() {
    let merged = json("{\"c\": 1, \"a\": 2}").merge(json("{\"b\": 3, \"a\": 4}"));
    assert_eq!(merged, json("{\"a\": 4, \"b\": 3, \"c\": 1}"));
    assert_eq!(
        json("1").merge(json("{\"a\": 1}")),
        json("{\"a\": 1}")
    );
}
