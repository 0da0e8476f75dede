use lf_monitor::json::{parse_json, str_equal, JsonValue};
use lf_monitor::mapper::{list_len, port_list, port_name, stats_samples, worker_count, MappingError};

fn doc(text: &str) -> JsonValue {
    parse_json(text.as_bytes()).expect("valid JSON")
}

#[test]
fn stats_keep_numeric_fields_only() {
    let v = doc(r#"{"/s": {"a": 1, "b": "x", "c": -5, "d": null, "e": true, "f": [1]}}"#);
    let s = stats_samples(&v, "/s").unwrap();
    assert_eq!(s, vec![("a".to_string(), 1), ("c".to_string(), -5)]);
}

#[test]
fn stats_with_fraction_is_not_an_integer() {
    let v = doc(r#"{"/s": {"a": 1.5}}"#);
    assert_eq!(stats_samples(&v, "/s"), Err(MappingError::NotAnInteger));
}

#[test]
fn stats_missing_path_is_unexpected_shape() {
    let v = doc(r#"{"/other": {"a": 1}}"#);
    assert_eq!(stats_samples(&v, "/s"), Err(MappingError::UnexpectedShape));
    let v = doc(r#"[1, 2]"#);
    assert_eq!(stats_samples(&v, "/s"), Err(MappingError::UnexpectedShape));
}

#[test]
fn port_list_reads_identifiers() {
    assert_eq!(port_list(&doc(r#"{"/l": [0, 3, 7]}"#), "/l"), Ok(vec![0i16, 3, 7]));
    assert_eq!(port_list(&doc(r#"{"/l": [0, "x"]}"#), "/l"), Err(MappingError::BadIdentifier));
    assert_eq!(port_list(&doc(r#"{"/l": [40000]}"#), "/l"), Err(MappingError::BadIdentifier));
    assert_eq!(port_list(&doc(r#"{"/l": {}}"#), "/l"), Err(MappingError::UnexpectedShape));
}

#[test]
fn port_name_needs_a_name_string() {
    assert_eq!(port_name(&doc(r#"{"/i": {"name": "eth0"}}"#), "/i"), Ok("eth0".to_string()));
    assert_eq!(port_name(&doc(r#"{"/i": {"name": 3}}"#), "/i"), Err(MappingError::MissingName));
    assert_eq!(port_name(&doc(r#"{"/j": {}}"#), "/i"), Err(MappingError::UnexpectedShape));
}

#[test]
fn list_len_counts_items() {
    assert_eq!(list_len(&doc(r#"{"/c": [0, 1, 2, 3, 4]}"#), "/c"), Ok(5));
    assert_eq!(list_len(&doc(r#"{"/c": 4}"#), "/c"), Err(MappingError::UnexpectedShape));
}

#[test]
fn worker_count_subtracts_reserved_cores() {
    assert_eq!(worker_count(5, 2), Ok(3));
    assert_eq!(worker_count(2, 2), Ok(0));
    assert_eq!(worker_count(1, 2), Err(MappingError::TooFewCores));
    assert_eq!(worker_count(0, 2), Err(MappingError::TooFewCores));
}

#[test]
fn json_lookup_and_equality() {
    let v = doc(r#"{"a": 1, "b": "two"}"#);
    assert!(matches!(v.get("a"), Some(JsonValue::Number(Some(1)))));
    assert!(matches!(v.get("b"), Some(JsonValue::Str(s)) if s == "two"));
    assert!(v.get("c").is_none());
    assert!(str_equal("abc", "abc"));
    assert!(!str_equal("abc", "abd"));
    assert!(!str_equal("ab", "abc"));
}

#[test]
fn parse_json_rejects_bad_input() {
    assert!(parse_json(b"").is_none());
    assert!(parse_json(b"{\"a\": ").is_none());
    assert!(matches!(parse_json(b"18446744073709551615"), Some(JsonValue::Number(None))));
}
