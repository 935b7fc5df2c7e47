use shape_runner::sanitize::clean_json_response;

#[test]
fn fenced_object_with_trailing_comma() {
    let out = clean_json_response("```json\n{\"a\":1,}\n```");
    assert_eq!(out, "{\"a\":1}");
    let v: serde_json::Value = serde_json::from_str(&out).unwrap();
    let mut expected = serde_json::Map::new();
    expected.insert("a".to_string(), serde_json::Value::from(1));
    assert_eq!(v, serde_json::Value::Object(expected));
}

#[test]
fn clean_text_is_a_fixed_point() {
    let clean = "{\"a\":[1,2],\"b\":{\"c\":\"d\"}}";
    let once = clean_json_response(clean);
    assert_eq!(once, clean);
    assert_eq!(clean_json_response(&once), once);
}

#[test]
fn sanitizing_twice_changes_nothing_more() {
    let raw = "Sure! ```json\n{\"x\": [1, 2, ], \"y\": {\"z\": 3, }}\n``` hope this helps";
    let once = clean_json_response(raw);
    assert_eq!(clean_json_response(&once), once);
}

#[test]
fn prose_around_object_is_dropped() {
    let out = clean_json_response("Here you go: {\"k\": {\"n\": 1}} -- done {later}");
    assert_eq!(out, "{\"k\": {\"n\": 1}}");
}

#[test]
fn unclosed_object_falls_back_to_last_brace() {
    let out = clean_json_response("{\"a\": {\"b\": 1} tail");
    assert_eq!(out, "{\"a\": {\"b\": 1}");
}

#[test]
fn control_characters() {
    let out = clean_json_response("{\"a\":\t\"x\ny\r\u{0}\"}");
    assert_eq!(out, "{\"a\": \"x y\"}");
}

#[test]
fn trailing_comma_with_space() {
    let out = clean_json_response("{\"a\": [1, 2, ], \"b\": 3, }");
    assert_eq!(out, "{\"a\": [1, 2 ], \"b\": 3 }");
}

#[test]
fn fence_without_newline() {
    let out = clean_json_response("```{\"a\":1}```");
    assert_eq!(out, "{\"a\":1}");
}

#[test]
fn no_object_is_left_as_is() {
    assert_eq!(clean_json_response("  just words \u{a0}"), "just words");
    assert_eq!(clean_json_response(""), "");
}

#[test]
fn trailing_comma_before_newline_and_indentation() {
    let out = clean_json_response("{\"a\":[1,2,\n  ]}");
    assert_eq!(out, "{\"a\":[1,2   ]}");
    let v: serde_json::Value = serde_json::from_str(&out).unwrap();
    let expected: serde_json::Value = serde_json::from_str("{\"a\":[1,2]}").unwrap();
    assert_eq!(v, expected);
}

#[test]
fn trailing_comma_before_indented_closing_brace() {
    let raw = "{\n  \"a\": 1,\n  \"b\": [\n    \"x\",\n  ],\n}";
    let out = clean_json_response(raw);
    let v: serde_json::Value = serde_json::from_str(&out).unwrap();
    let expected: serde_json::Value = serde_json::from_str("{\"a\":1,\"b\":[\"x\"]}").unwrap();
    assert_eq!(v, expected);
}

#[test]
fn comma_between_items_is_kept() {
    assert_eq!(clean_json_response("{\"a\": [1 ,\t2]}"), "{\"a\": [1 , 2]}");
}

#[test]
fn clean_array_of_objects_settles_after_one_pass() {
    let raw = "[{\"a\":1},{\"b\":2}]";
    let once = clean_json_response(raw);
    assert_eq!(once, "{\"a\":1}");
    assert_eq!(clean_json_response(&once), once);
}

#[test]
fn clean_scalars_and_arrays_are_fixed_points() {
    for x in ["[1,2,3]", "\"text\"", "42", "true", "null", "[]"] {
        let once = clean_json_response(x);
        assert_eq!(once, x);
        assert_eq!(clean_json_response(&once), once);
    }
}
