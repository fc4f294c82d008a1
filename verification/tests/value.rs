use chat_generation::json::Json;

#[test]
fn a_value_comes_back_as_it_went_in() {
    let text = r#"{"a":null,"b":[true,false,-3,18446744073709551615,0.5,"x \"y\"\n",[],{}],"c":{"d":{"e":[[1]]}}}"#;
    let value: serde_json::Value = serde_json::from_str(text).unwrap();
    let json = Json::from_value(value.clone());
    assert_eq!(json.to_value(), value);
    assert_eq!(json.to_text(), text);
}

#[test]
fn a_value_is_read_part_by_part() {
    let value: serde_json::Value = serde_json::from_str(r#"{"b":[1,"two",null],"a":true}"#).unwrap();
    let json = Json::from_value(value);
    assert_eq!(json.get("a"), Some(&Json::Bool(true)));
    assert_eq!(
        json.get("b"),
        Some(&Json::Array(vec![
            Json::Number(serde_json::Number::from(1)),
            Json::Text("two".to_string()),
            Json::Null,
        ]))
    );
    assert_eq!(json.get("c"), None);
    assert_eq!(Json::Array(vec![]).get("a"), None);
    assert_eq!(Json::Text("two".to_string()).as_str(), Some("two"));
    assert_eq!(Json::Null.as_str(), None);
}

#[test]
fn text_is_compact_with_fields_in_the_order_of_their_keys() {
    let json = Json::Object(vec![
        ("n".to_string(), Json::Number(serde_json::Number::from(1))),
        ("document_id".to_string(), Json::Text("previous-document".to_string())),
        ("n".to_string(), Json::Number(serde_json::Number::from(2))),
    ]);
    assert_eq!(json.to_text(), r#"{"document_id":"previous-document","n":2}"#);
    assert_eq!(Json::Array(vec![]).to_text(), "[]");
}

#[test]
fn an_object_of_one_flag_is_written_out() {
    let flag = |value: bool| Json::Object(vec![("stopped".to_string(), Json::Bool(value))]);
    assert_eq!(flag(true).to_text(), r#"{"stopped":true}"#);
    assert_eq!(flag(false).to_text(), r#"{"stopped":false}"#);
}
