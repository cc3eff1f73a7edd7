use ai_vmm::json::{parse_json, render_in_order, render_json, Json, JsonNumber};

#[test]
fn every_kind_of_value_is_told_apart() {
    let value = parse_json("[null, true, 7, -7, 1.5, 18446744073709551615, \"a\", [], {}]").expect("JSON");
    let items = value.as_array().expect("list");
    assert!(matches!(items[0], Json::Null));
    assert!(matches!(items[1], Json::Bool(true)));
    assert!(matches!(items[2], Json::Number(JsonNumber::Unsigned(7))));
    assert!(matches!(items[3], Json::Number(JsonNumber::Signed(-7))));
    assert!(matches!(items[4], Json::Number(JsonNumber::Decimal(_))));
    assert_eq!(items[5].as_u64(), Some(u64::MAX));
    assert_eq!(items[6].as_str(), Some("a"));
    assert!(matches!(&items[7], Json::List(list) if list.is_empty()));
    assert!(matches!(&items[8], Json::Object(fields) if fields.is_empty()));
    assert_eq!(items[4].as_u64(), None);
    assert_eq!(items[6].as_array().map(Vec::len), None);
}

#[test]
fn rendering_is_compact_and_ordered_by_name() {
    let value = parse_json("{ \"b\" : [1, 2.50, -3, null, \"x\\ny\"], \"a\" : {\"z\": false} }").expect("JSON");
    assert_eq!(render_json(&value), "{\"a\":{\"z\":false},\"b\":[1,2.5,-3,null,\"x\\ny\"]}");
    assert_eq!(render_json(&value.clone()), render_json(&value));
}

#[test]
fn malformed_text_is_refused_with_a_reason() {
    let reason = parse_json("{\"a\":").expect_err("malformed");
    assert!(!reason.is_empty());
    assert!(parse_json("").is_err());
    assert!(parse_json("1 2").is_err());
}

#[test]
fn fields_are_found_by_name() {
    let value = parse_json("{\"n\": 3, \"t\": \"x\", \"l\": [1]}").expect("JSON");
    assert_eq!(value.number_field("n"), Some(3));
    assert_eq!(value.text_field("t"), Some("x"));
    assert_eq!(value.list_field("l").map(Vec::len), Some(1));
    assert!(value.get("missing").is_none());
    assert_eq!(value.text_field("n"), None);
    assert!(parse_json("[1]").expect("JSON").get("n").is_none());
}

#[test]
fn an_integer_that_is_not_negative_is_unsigned() {
    let five = Json::Number(JsonNumber::Signed(5));
    assert_eq!(five.as_u64(), Some(5));
    assert_eq!(render_json(&five), "5");
    assert_eq!(Json::Number(JsonNumber::Signed(-5)).as_u64(), None);
    assert_eq!(render_json(&Json::Number(JsonNumber::Signed(-5))), "-5");
}

#[test]
fn the_last_field_of_a_name_is_kept_in_the_order_of_the_bytes() {
    let field = |name: &str, n: u64| (name.to_string(), Json::Number(JsonNumber::Unsigned(n)));
    let value = Json::Object(vec![field("b", 1), field("a", 2), field("ab", 3), field("b", 4), field("B", 5), field("é", 6)]);
    assert_eq!(render_json(&value), "{\"B\":5,\"a\":2,\"ab\":3,\"b\":4,\"é\":6}");
}

#[test]
fn fields_may_keep_their_order() {
    let leaf = |text: &str| parse_json(text).expect("JSON");
    let inner = Json::Object(vec![("z".to_string(), leaf("1.50")), ("a\n".to_string(), leaf("[]"))]);
    let value = Json::Object(vec![
        ("b".to_string(), Json::List(vec![inner, leaf("null"), leaf("{}"), leaf("-3")])),
        ("a".to_string(), leaf("\"x\\\"y\"")),
        ("b".to_string(), leaf("true")),
    ]);
    assert_eq!(
        render_in_order(&value),
        "{\"b\":[{\"z\":1.5,\"a\\n\":[]},null,{},-3],\"a\":\"x\\\"y\",\"b\":true}"
    );
    assert_eq!(render_in_order(&leaf("7")), render_json(&leaf("7")));
}
