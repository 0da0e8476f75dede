use lf_monitor::json::JsonValue;
use lf_monitor::telemetry::{
    decode_response, get_dpdk_runtime_dir, param_query, parse_greeting, socket_path, trim_nulls,
    ConnectError, QueryError,
};

#[test]
fn runtime_dir_and_socket_path() {
    assert_eq!(get_dpdk_runtime_dir("lf"), "/var/run/dpdk/lf");
    assert_eq!(socket_path("lf"), "/var/run/dpdk/lf/dpdk_telemetry.v2");
}

#[test]
fn parameterised_queries() {
    assert_eq!(param_query("/ethdev/info", 0), "/ethdev/info,0");
    assert_eq!(param_query("/lf/worker/stats", 12), "/lf/worker/stats,12");
    assert_eq!(param_query("/x", -3), "/x,-3");
}

#[test]
fn trim_removes_padding_at_both_ends() {
    assert_eq!(trim_nulls(&[0, 0, 1, 2, 0, 3, 0, 0]), vec![1, 2, 0, 3]);
    assert_eq!(trim_nulls(&[0, 0]), Vec::<u8>::new());
    assert_eq!(trim_nulls(&[]), Vec::<u8>::new());
}

#[test]
fn padded_greeting_reads_as_unpadded() {
    let text = br#"{"version": "DPDK 23.11.0", "pid": 1234, "max_output_len": 16384}"#;
    let plain = parse_greeting(text).unwrap();
    let mut padded = text.to_vec();
    padded.resize(16384, 0);
    let p = parse_greeting(&padded).unwrap();
    assert_eq!(plain.version, "DPDK 23.11.0");
    assert_eq!(plain.pid, 1234);
    assert_eq!(plain.max_output_len, 16384);
    assert_eq!(p.version, plain.version);
    assert_eq!(p.pid, plain.pid);
    assert_eq!(p.max_output_len, plain.max_output_len);
}

#[test]
fn greeting_errors() {
    assert_eq!(parse_greeting(b"{\"version\": ").unwrap_err(), ConnectError::MalformedGreeting);
    assert_eq!(
        parse_greeting(br#"{"version": "v", "pid": 1}"#).unwrap_err(),
        ConnectError::MissingField
    );
    assert_eq!(
        parse_greeting(br#"{"version": 3, "pid": 1, "max_output_len": 2}"#).unwrap_err(),
        ConnectError::MissingField
    );
}

#[test]
fn truncated_response_is_a_query_error() {
    let full = br#"{"/ethdev/stats": {"rx_packets": 42}}"#;
    assert!(matches!(decode_response(full), Ok(JsonValue::Object(_))));
    assert_eq!(decode_response(&full[..20]).unwrap_err(), QueryError::Malformed);
    assert_eq!(decode_response(b"").unwrap_err(), QueryError::Empty);
}
