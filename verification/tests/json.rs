use smarthome_model::json::{parse_json, JsonValue};

fn text(s: &str) -> JsonValue {
    JsonValue::Text(s.to_string())
}

#[test]
fn parse_json_reads_every_kind_of_value() {
    assert_eq!(parse_json("null"), Some(JsonValue::Null));
    assert_eq!(parse_json("true"), Some(JsonValue::Bool(true)));
    assert_eq!(parse_json("12"), Some(JsonValue::Number("12".to_string())));
    assert_eq!(parse_json("-1.5"), Some(JsonValue::Number("-1.5".to_string())));
    assert_eq!(parse_json("\"a b\""), Some(text("a b")));
    assert_eq!(
        parse_json("[1, \"x\", [false]]"),
        Some(JsonValue::List(vec![
            JsonValue::Number("1".to_string()),
            text("x"),
            JsonValue::List(vec![JsonValue::Bool(false)]),
        ]))
    );
    assert_eq!(
        parse_json("{\"a\": {\"b\": null}}"),
        Some(JsonValue::Object(vec![(
            "a".to_string(),
            JsonValue::Object(vec![("b".to_string(), JsonValue::Null)])
        )]))
    );
}

#[test]
fn parse_json_refuses_what_is_no_document() {
    assert_eq!(parse_json(""), None);
    assert_eq!(parse_json("{"), None);
    assert_eq!(parse_json("{\"a\": 1,}"), None);
    assert_eq!(parse_json("hello"), None);
    assert_eq!(parse_json("1 2"), None);
}

#[test]
fn members_are_found_by_name() {
    let doc = parse_json("{\"type\": \"Quantity\", \"value\": \"130.75 W\", \"n\": 3}").unwrap();
    assert_eq!(doc.member("type"), Some(&text("Quantity")));
    assert_eq!(doc.member("missing"), None);
    assert_eq!(doc.text_member("value"), Some(&"130.75 W".to_string()));
    assert_eq!(doc.text_member("n"), None);
    assert_eq!(doc.text_member("missing"), None);
    assert_eq!(text("x").member("type"), None);
    assert_eq!(text("x").as_text(), Some(&"x".to_string()));
    assert_eq!(JsonValue::Null.as_text(), None);
}

#[test]
fn optional_text_members() {
    let doc = parse_json("{\"a\": \"x\", \"b\": null, \"c\": 1}").unwrap();
    assert_eq!(doc.optional_text_member("a"), Some(Some("x".to_string())));
    assert_eq!(doc.optional_text_member("b"), Some(None));
    assert_eq!(doc.optional_text_member("missing"), Some(None));
    assert_eq!(doc.optional_text_member("c"), None);
}

#[test]
fn rows_of_texts() {
    let doc = parse_json("[[\"a\", \"b\"], [\"c\", \"d\"]]").unwrap();
    assert_eq!(
        doc.text_rows(2),
        Some(vec![
            vec!["a".to_string(), "b".to_string()],
            vec!["c".to_string(), "d".to_string()]
        ])
    );
    assert_eq!(doc.text_rows(3), None);
    assert_eq!(parse_json("[]").unwrap().text_rows(2), Some(vec![]));
    assert_eq!(parse_json("[[\"a\", 1]]").unwrap().text_rows(2), None);
    assert_eq!(parse_json("{}").unwrap().text_rows(2), None);
    assert_eq!(parse_json("[\"a\", \"b\"]").unwrap().text_row(2), Some(vec!["a".to_string(), "b".to_string()]));
    assert_eq!(parse_json("[\"a\"]").unwrap().text_row(2), None);
}

#[test]
fn entries_of_texts() {
    let doc = parse_json("{\"kitchen\": \"1\", \"bath\": \"2\"}").unwrap();
    let mut entries = doc.text_entries().unwrap();
    entries.sort();
    assert_eq!(
        entries,
        vec![("bath".to_string(), "2".to_string()), ("kitchen".to_string(), "1".to_string())]
    );
    assert_eq!(parse_json("{\"a\": 1}").unwrap().text_entries(), None);
    assert_eq!(parse_json("[]").unwrap().text_entries(), None);
}

#[test]
fn pairs_of_numbers() {
    let doc = parse_json("[[0, 0.03], [10000, 0.33]]").unwrap();
    assert_eq!(
        doc.number_pairs(),
        Some(vec![
            ("0".to_string(), "0.03".to_string()),
            ("10000".to_string(), "0.33".to_string())
        ])
    );
    assert_eq!(parse_json("[[0, \"1\"]]").unwrap().number_pairs(), None);
    assert_eq!(parse_json("[[0, 1, 2]]").unwrap().number_pairs(), None);
    assert_eq!(parse_json("[1, 2]").unwrap().number_pair(), Some(("1".to_string(), "2".to_string())));
    let env = parse_json("{\"lamp\": [[0, 1]]}").unwrap();
    assert_eq!(
        env.number_pair_entries(),
        Some(vec![("lamp".to_string(), vec![("0".to_string(), "1".to_string())])])
    );
    assert_eq!(parse_json("{\"lamp\": 1}").unwrap().number_pair_entries(), None);
    assert_eq!(JsonValue::Number("1".to_string()).as_number(), Some(&"1".to_string()));
    assert!(parse_json("[1]").unwrap().as_list().is_some());
    assert!(parse_json("1").unwrap().as_list().is_none());
}
