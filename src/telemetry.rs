use vstd::prelude::*;

use crate::json::{json_of_bytes, member, parse_json, JsonValue};

verus! {

/// What the endpoint says of itself in its greeting.
#[derive(Debug)]
pub struct TelemetryInfo {
    pub version: String,
    pub pid: i64,
    pub max_output_len: i64,
}

/// Why no session could be opened.
#[derive(Debug, Clone, Copy, PartialEq, Eq, Structural)]
pub enum ConnectError {
    /// The channel could not be opened or the greeting not received.
    Socket,
    /// The greeting is not one JSON document.
    MalformedGreeting,
    /// The greeting lacks the version string, the pid or the output bound.
    MissingField,
}

/// Why a query got no usable response.
#[derive(Debug, Clone, Copy, PartialEq, Eq, Structural)]
pub enum QueryError {
    /// The request could not be sent.
    Send,
    /// The response could not be received.
    Receive,
    /// The receive returned no bytes.
    Empty,
    /// The response is not one JSON document (a truncated one, say).
    Malformed,
}

/// The size of the receive buffer: the transport's largest frame.
pub const MAX_FRAME_LEN: usize = 16384;

/// The runtime directory of the engine instance named by `prefix`.
pub open spec fn runtime_dir_of(prefix: Seq<char>) -> Seq<char> {
    "/var/run/dpdk/"@ + prefix
}

/// The address of the telemetry channel of the instance named by `prefix`.
pub open spec fn socket_path_of(prefix: Seq<char>) -> Seq<char> {
    runtime_dir_of(prefix) + "/dpdk_telemetry.v2"@
}

/// The runtime directory of the engine instance named by `dpdk_file_prefix`.
pub fn get_dpdk_runtime_dir(dpdk_file_prefix: &str) -> (r: String)
    ensures
        r@ == runtime_dir_of(dpdk_file_prefix@),
{
    let mut dir = "/var/run/dpdk/".to_owned();
    dir.append(dpdk_file_prefix);
    dir
}

/// The address of the telemetry channel of the instance named by `prefix`.
pub fn socket_path(prefix: &str) -> (r: String)
    ensures
        r@ == socket_path_of(prefix@),
{
    let mut path = get_dpdk_runtime_dir(prefix);
    path.append("/dpdk_telemetry.v2");
    path
}

/// The decimal digit for `d`.
pub open spec fn digit_char(d: nat) -> char {
    if d < 10 {
        ((d + 48) as u8) as char
    } else {
        '?'
    }
}

/// The decimal digits of `n`, without leading zeros.
pub open spec fn digits_of(n: nat) -> Seq<char>
    decreases n,
{
    if n < 10 {
        seq![digit_char(n)]
    } else {
        digits_of(n / 10).push(digit_char(n % 10))
    }
}

/// The decimal text of `n`, with a minus sign when it is negative.
pub open spec fn decimal_of(n: int) -> Seq<char> {
    if n < 0 {
        seq!['-'] + digits_of((-n) as nat)
    } else {
        digits_of(n as nat)
    }
}

/// Relies on i64's `ToString`: the decimal text of the number.
#[verifier::external_body]
fn int_text(n: i64) -> (r: String)
    ensures
        r@ == decimal_of(n as int),
{
    n.to_string()
}

/// A query with one integer parameter: `path,arg`.
pub open spec fn param_query_of(path: Seq<char>, arg: int) -> Seq<char> {
    path + ","@ + decimal_of(arg)
}

/// The query for `path` with the parameter `arg`.
pub fn param_query(path: &str, arg: i64) -> (r: String)
    ensures
        r@ == param_query_of(path@, arg as int),
{
    let mut q = path.to_owned();
    q.append(",");
    let t = int_text(arg);
    q.append(t.as_str());
    q
}

/// `s` without the zero bytes at its end.
pub open spec fn strip_trailing_nulls(s: Seq<u8>) -> Seq<u8>
    decreases s.len(),
{
    if s.len() > 0 && s.last() == 0 {
        strip_trailing_nulls(s.drop_last())
    } else {
        s
    }
}

/// `s` without the zero bytes at its start.
pub open spec fn strip_leading_nulls(s: Seq<u8>) -> Seq<u8>
    decreases s.len(),
{
    if s.len() > 0 && s[0] == 0 {
        strip_leading_nulls(s.drop_first())
    } else {
        s
    }
}

/// `s` without the zero bytes at either end.
pub open spec fn trim_nulls_of(s: Seq<u8>) -> Seq<u8> {
    strip_leading_nulls(strip_trailing_nulls(s))
}

/// The frame without the zero bytes that pad it at either end.
pub fn trim_nulls(frame: &[u8]) -> (r: Vec<u8>)
    ensures
        r@ == trim_nulls_of(frame@),
{
    let mut end: usize = frame.len();
    assert(frame@.take(end as int) =~= frame@);
    while end > 0 && frame[end - 1] == 0
        invariant
            end <= frame@.len(),
            strip_trailing_nulls(frame@) == strip_trailing_nulls(frame@.take(end as int)),
        decreases end,
    {
        assert(frame@.take(end as int).drop_last() =~= frame@.take(end - 1));
        end = end - 1;
    }
    let ghost body = frame@.take(end as int);
    let mut start: usize = 0;
    assert(body.subrange(0, end as int) =~= body);
    while start < end && frame[start] == 0
        invariant
            start <= end <= frame@.len(),
            body == frame@.take(end as int),
            strip_leading_nulls(body) == strip_leading_nulls(body.subrange(start as int, end as int)),
        decreases end - start,
    {
        assert(body.subrange(start as int, end as int).drop_first() =~= body.subrange(
            start + 1,
            end as int,
        ));
        start = start + 1;
    }
    let mut out: Vec<u8> = Vec::new();
    let mut i: usize = start;
    while i < end
        invariant
            start <= i <= end <= frame@.len(),
            out@ =~= frame@.subrange(start as int, i as int),
        decreases end - i,
    {
        out.push(frame[i]);
        i = i + 1;
    }
    assert(body.subrange(start as int, end as int) =~= out@);
    out
}

/// The greeting that a frame holds, once its padding is trimmed.
pub open spec fn greeting_of(frame: Seq<u8>) -> Result<TelemetryInfo, ConnectError> {
    match json_of_bytes(trim_nulls_of(frame)) {
        None => Err(ConnectError::MalformedGreeting),
        Some(v) => match (member(v, "version"@), member(v, "pid"@), member(v, "max_output_len"@)) {
            (
                Some(JsonValue::Str(version)),
                Some(JsonValue::Number(Some(pid))),
                Some(JsonValue::Number(Some(max_output_len))),
            ) => Ok(TelemetryInfo { version, pid, max_output_len }),
            _ => Err(ConnectError::MissingField),
        },
    }
}

/// Reads the greeting frame that the endpoint sends on connection.
pub fn parse_greeting(frame: &[u8]) -> (r: Result<TelemetryInfo, ConnectError>)
    ensures
        r == greeting_of(frame@),
{
    let payload = trim_nulls(frame);
    let doc = match parse_json(payload.as_slice()) {
        Some(v) => v,
        None => return Err(ConnectError::MalformedGreeting),
    };
    match (doc.get("version"), doc.get("pid"), doc.get("max_output_len")) {
        (
            Some(JsonValue::Str(version)),
            Some(JsonValue::Number(Some(pid))),
            Some(JsonValue::Number(Some(max_output_len))),
        ) => Ok(TelemetryInfo { version: version.clone(), pid: *pid, max_output_len: *max_output_len }),
        _ => Err(ConnectError::MissingField),
    }
}

/// What the bytes of one receive give as a response.
pub open spec fn response_of(received: Seq<u8>) -> Result<JsonValue, QueryError> {
    if received.len() == 0 {
        Err(QueryError::Empty)
    } else {
        match json_of_bytes(received) {
            Some(v) => Ok(v),
            None => Err(QueryError::Malformed),
        }
    }
}

/// Reads the response that one receive brought.
pub fn decode_response(received: &[u8]) -> (r: Result<JsonValue, QueryError>)
    ensures
        r == response_of(received@),
{
    if received.len() == 0 {
        return Err(QueryError::Empty);
    }
    match parse_json(received) {
        Some(v) => Ok(v),
        None => Err(QueryError::Malformed),
    }
}

} // verus!

verus! {

/// `n` zero bytes.
pub open spec fn null_padding(n: nat) -> Seq<u8> {
    Seq::new(n, |i: int| 0u8)
}

proof fn lemma_strip_padding(payload: Seq<u8>, n: nat)
    ensures
        strip_trailing_nulls(payload + null_padding(n)) == strip_trailing_nulls(payload),
    decreases n,
{
    if n > 0 {
        let padded = payload + null_padding(n);
        assert(padded.drop_last() =~= payload + null_padding((n - 1) as nat));
        lemma_strip_padding(payload, (n - 1) as nat);
    } else {
        assert(payload + null_padding(0) =~= payload);
    }
}

/// Zero bytes that pad a greeting frame change nothing of what is read
/// from it.
pub proof fn lemma_greeting_ignores_padding(payload: Seq<u8>, n: nat)
    ensures
        greeting_of(payload + null_padding(n)) == greeting_of(payload),
{
    lemma_strip_padding(payload, n);
}

} // verus!
