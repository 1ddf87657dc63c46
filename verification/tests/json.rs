use pi_agent::json;
use pi_agent::json::Json;

fn object(fields: Vec<(&str, Json)>) -> Json {
    Json::Object(
        fields
            .into_iter()
            .map(|(name, value)| (name.to_string(), value))
            .collect(),
    )
}

#[test]
fn parsing_reads_every_kind_of_value() {
    let read = json::parse(r#"{"b": [1, -2, 2.5, true, null, "x\n"], "a": {}}"#);
    let expected = object(vec![
        ("a", object(vec![])),
        (
            "b",
            Json::Array(vec![
                Json::Integer(1),
                Json::Number(serde_json::Number::from(-2)),
                Json::Number(serde_json::Number::from_f64(2.5).unwrap()),
                Json::Bool(true),
                Json::Null,
                Json::text("x\n"),
            ]),
        ),
    ]);
    assert_eq!(read, Some(expected));
}

#[test]
fn parsing_refuses_what_is_not_json() {
    assert_eq!(json::parse(""), None);
    assert_eq!(json::parse("{"), None);
    assert_eq!(json::parse("{} {}"), None);
    assert_eq!(json::parse("{'a': 1}"), None);
}

#[test]
fn values_are_printed_on_one_line() {
    let value = object(vec![
        ("b", Json::Array(vec![Json::Integer(1), Json::Null, Json::Bool(false)])),
        ("a", Json::text("say \"hi\"")),
        ("c", Json::Number(serde_json::Number::from(-3))),
    ]);
    assert_eq!(
        value.to_compact(),
        r#"{"a":"say \"hi\"","b":[1,null,false],"c":-3}"#
    );
}

#[test]
fn values_are_printed_indented() {
    let value = object(vec![
        ("name", Json::text("x")),
        ("list", Json::Array(vec![Json::Integer(18446744073709551615)])),
    ]);
    assert_eq!(
        value.to_pretty(),
        "{\n  \"list\": [\n    18446744073709551615\n  ],\n  \"name\": \"x\"\n}"
    );
}

#[test]
fn later_field_of_a_name_counts() {
    let value = object(vec![("k", Json::Integer(1)), ("k", Json::Integer(2))]);
    assert_eq!(value.get("k"), Some(&Json::Integer(2)));
    assert_eq!(value.get("other"), None);
    assert_eq!(Json::Null.get("k"), None);
    assert_eq!(value.to_compact(), r#"{"k":2}"#);
    let copy = value.clone();
    assert_eq!(copy, value);
}

#[test]
fn trees_are_carried_both_ways() {
    let text = r#"{"a":[1,{"b":null}],"c":0.25,"d":"t"}"#;
    let tree: serde_json::Value = serde_json::from_str(text).unwrap();
    let value = json::from_value(tree.clone());
    assert_eq!(json::to_value(&value), tree);
    assert_eq!(value.to_compact(), text);
}

#[test]
fn arguments_are_read_or_there_are_none() {
    let none = object(vec![]);
    assert_eq!(json::parse_arguments(""), none);
    assert_eq!(json::parse_arguments("{\"url\":"), none);
    assert_eq!(
        json::parse_arguments(r#"{"url":"u"}"#),
        object(vec![("url", Json::text("u"))])
    );
    assert_eq!(json::parse_arguments("7"), Json::Integer(7));
    assert_eq!(json::choose_arguments("", Some(Json::Integer(7))), none);
    assert_eq!(json::choose_arguments("7", Some(Json::Integer(7))), Json::Integer(7));
    assert_eq!(json::choose_arguments("?", None), none);
}
