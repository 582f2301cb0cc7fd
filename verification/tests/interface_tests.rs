use serde_json::Value;

#[test]
fn test_str_to_c_str() {
    let data = "{ \"key\": \"value\" }";
    let parsed = plughost::c_str_to_json(&plughost::str_to_c_str(data)).unwrap();
    assert_eq!(parsed["key"], "value")
}

#[test]
fn test_str_with_null_to_c_str() {
    let data = "{ \"k\0\0ey\": \0\"value\" }";
    let parsed = plughost::c_str_to_json(&plughost::str_to_c_str(data)).unwrap();
    assert_eq!(parsed["key"], "value")
}

#[test]
fn wire_is_null_terminated() {
    let wire = plughost::str_to_c_str("hello");
    assert_eq!(wire.len(), 6);
    assert_eq!(*wire.last().unwrap(), '\0');
    assert!(!wire[..5].contains(&'\0'));
}

#[test]
fn wire_round_trip_plain_text() {
    let wire = plughost::str_to_c_str("hello world");
    assert_eq!(plughost::c_str_to_str(&wire), "hello world");
}

#[test]
fn wire_round_trip_empty_text() {
    let wire = plughost::str_to_c_str("");
    assert_eq!(wire, vec!['\0']);
    assert_eq!(plughost::c_str_to_str(&wire), "");
}

#[test]
fn encode_strips_embedded_nulls() {
    let wire = plughost::str_to_c_str("a\0b\0\0c");
    assert_eq!(wire, vec!['a', 'b', 'c', '\0']);
    assert_eq!(plughost::c_str_to_str(&wire), "abc");
}

#[test]
fn decode_stops_at_first_null() {
    let buf = vec!['a', 'b', '\0', 'c', '\0'];
    assert_eq!(plughost::c_str_to_str(&buf), "ab");
}

#[test]
fn decode_without_terminator_takes_all() {
    let buf = vec!['a', 'b', 'c'];
    assert_eq!(plughost::c_str_to_str(&buf), "abc");
}

#[test]
fn json_value_round_trip_number() {
    let v: Value = serde_json::from_str("6").unwrap();
    let wire = plughost::json_to_c_str(&v);
    assert_eq!(*wire.last().unwrap(), '\0');
    let back = plughost::c_str_to_json(&wire).unwrap();
    assert_eq!(back, v);
}

#[test]
fn json_value_round_trip_nested() {
    let v: Value = serde_json::from_str("{\"xs\":[1,2,3],\"s\":\"a\\\"b\\\\c\"}").unwrap();
    let back = plughost::c_str_to_json(&plughost::json_to_c_str(&v)).unwrap();
    assert_eq!(back, v);
}

#[test]
fn decoding_garbage_reports_an_error() {
    let wire = plughost::str_to_c_str("this is not json");
    assert!(plughost::c_str_to_json(&wire).is_err());
}
