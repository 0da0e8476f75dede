use vstd::prelude::*;

use crate::json::{member, JsonValue};

verus! {

/// Why a response could not be turned into samples.
#[derive(Debug, Clone, Copy, PartialEq, Eq, Structural)]
pub enum MappingError {
    /// The value under the query's path is missing or has the wrong kind.
    UnexpectedShape,
    /// A numeric field holds no integer that fits in 64 bits.
    NotAnInteger,
    /// An identifier does not fit the label's integer type.
    BadIdentifier,
    /// The interface information carries no `name` string.
    MissingName,
    /// The core list is shorter than the number of reserved cores.
    TooFewCores,
}

/// The samples of a stats object: one `(field, value)` pair for each numeric
/// field, in order; `None` when a numeric field is no 64-bit integer.
pub open spec fn numeric_samples(entries: Seq<(String, JsonValue)>) -> Option<Seq<(String, i64)>>
    decreases entries.len(),
{
    if entries.len() == 0 {
        Some(Seq::empty())
    } else {
        let last = entries.last();
        match numeric_samples(entries.drop_last()) {
            None => None,
            Some(s) => match last.1 {
                JsonValue::Number(Some(v)) => Some(s.push((last.0, v))),
                JsonValue::Number(None) => None,
                _ => Some(s),
            },
        }
    }
}

/// How many fields of a stats object hold a number.
pub open spec fn count_numeric(entries: Seq<(String, JsonValue)>) -> nat
    decreases entries.len(),
{
    if entries.len() == 0 {
        0
    } else {
        count_numeric(entries.drop_last()) + if entries.last().1 is Number {
            1nat
        } else {
            0nat
        }
    }
}

proof fn lemma_samples_none_extends(entries: Seq<(String, JsonValue)>, k: int)
    requires
        0 <= k <= entries.len(),
        numeric_samples(entries.take(k)) is None,
    ensures
        numeric_samples(entries) is None,
    decreases entries.len(),
{
    if entries.len() == k {
        assert(entries.take(k) =~= entries);
    } else {
        assert(entries.drop_last().take(k) =~= entries.take(k));
        lemma_samples_none_extends(entries.drop_last(), k);
    }
}

/// The samples of the stats object found under `path` in a response.
pub open spec fn stats_of(resp: JsonValue, path: Seq<char>) -> Result<Seq<(String, i64)>, MappingError> {
    match member(resp, path) {
        Some(JsonValue::Object(entries)) => match numeric_samples(entries@) {
            Some(s) => Ok(s),
            None => Err(MappingError::NotAnInteger),
        },
        _ => Err(MappingError::UnexpectedShape),
    }
}

/// The numeric fields of the stats object under `path`, in order; fields
/// that hold no number are left out.
pub fn stats_samples(resp: &JsonValue, path: &str) -> (r: Result<Vec<(String, i64)>, MappingError>)
    ensures
        match r {
            Ok(v) => stats_of(*resp, path@) == Ok::<Seq<(String, i64)>, MappingError>(v@),
            Err(e) => stats_of(*resp, path@) == Err::<Seq<(String, i64)>, MappingError>(e),
        },
{
    match resp.get(path) {
        Some(JsonValue::Object(entries)) => {
            let mut out: Vec<(String, i64)> = Vec::new();
            let mut i: usize = 0;
            assert(entries@.take(0) =~= Seq::<(String, JsonValue)>::empty());
            while i < entries.len()
                invariant
                    i <= entries@.len(),
                    member(*resp, path@) == Some(JsonValue::Object(*entries)),
                    numeric_samples(entries@.take(i as int)) == Some(out@),
                decreases entries@.len() - i,
            {
                assert(entries@.take(i + 1).drop_last() =~= entries@.take(i as int));
                assert(entries@.take(i + 1).last() == entries@[i as int]);
                match &entries[i].1 {
                    JsonValue::Number(Some(v)) => {
                        out.push((entries[i].0.clone(), *v));
                    },
                    JsonValue::Number(None) => {
                        proof {
                            lemma_samples_none_extends(entries@, i + 1);
                        }
                        return Err(MappingError::NotAnInteger);
                    },
                    _ => {},
                }
                i = i + 1;
            }
            assert(entries@.take(entries@.len() as int) =~= entries@);
            Ok(out)
        },
        _ => Err(MappingError::UnexpectedShape),
    }
}

} // verus!

verus! {

/// A stats object yields exactly one sample for each field that holds a
/// number, and none for the other fields.
pub proof fn lemma_one_sample_per_numeric_field(entries: Seq<(String, JsonValue)>)
    requires
        numeric_samples(entries) is Some,
    ensures
        numeric_samples(entries)->0.len() == count_numeric(entries),
    decreases entries.len(),
{
    if entries.len() > 0 {
        lemma_one_sample_per_numeric_field(entries.drop_last());
    }
}

/// The identifiers of a port list: each item an integer in `i16`'s range.
pub open spec fn port_ids(items: Seq<JsonValue>) -> Option<Seq<i16>>
    decreases items.len(),
{
    if items.len() == 0 {
        Some(Seq::empty())
    } else {
        match (port_ids(items.drop_last()), items.last()) {
            (Some(s), JsonValue::Number(Some(v))) => if i16::MIN <= v <= i16::MAX {
                Some(s.push(v as i16))
            } else {
                None
            },
            _ => None,
        }
    }
}

/// The port identifiers under `path`; `None` when the value there is no
/// array or holds an item that is not such an integer.
pub open spec fn port_list_of(resp: JsonValue, path: Seq<char>) -> Option<Seq<i16>> {
    match member(resp, path) {
        Some(JsonValue::Array(items)) => port_ids(items@),
        _ => None,
    }
}

proof fn lemma_ports_none_extends(items: Seq<JsonValue>, k: int)
    requires
        0 <= k <= items.len(),
        port_ids(items.take(k)) is None,
    ensures
        port_ids(items) is None,
    decreases items.len(),
{
    if items.len() == k {
        assert(items.take(k) =~= items);
    } else {
        assert(items.drop_last().take(k) =~= items.take(k));
        lemma_ports_none_extends(items.drop_last(), k);
    }
}

/// The port identifiers listed under `path`.
pub fn port_list(resp: &JsonValue, path: &str) -> (r: Result<Vec<i16>, MappingError>)
    ensures
        match r {
            Ok(v) => port_list_of(*resp, path@) == Some(v@),
            Err(e) => port_list_of(*resp, path@) is None && e == (if member(*resp, path@) is Some
                && member(*resp, path@)->0 is Array {
                MappingError::BadIdentifier
            } else {
                MappingError::UnexpectedShape
            }),
        },
{
    match resp.get(path) {
        Some(JsonValue::Array(items)) => {
            let mut out: Vec<i16> = Vec::new();
            let mut i: usize = 0;
            assert(items@.take(0) =~= Seq::<JsonValue>::empty());
            while i < items.len()
                invariant
                    i <= items@.len(),
                    member(*resp, path@) == Some(JsonValue::Array(*items)),
                    port_ids(items@.take(i as int)) == Some(out@),
                decreases items@.len() - i,
            {
                assert(items@.take(i + 1).drop_last() =~= items@.take(i as int));
                assert(items@.take(i + 1).last() == items@[i as int]);
                match &items[i] {
                    JsonValue::Number(Some(v)) if -32768 <= *v && *v <= 32767 => {
                        out.push(*v as i16);
                    },
                    _ => {
                        proof {
                            lemma_ports_none_extends(items@, i + 1);
                        }
                        return Err(MappingError::BadIdentifier);
                    },
                }
                i = i + 1;
            }
            assert(items@.take(items@.len() as int) =~= items@);
            Ok(out)
        },
        _ => Err(MappingError::UnexpectedShape),
    }
}

/// The length of the array under `path`.
pub open spec fn list_len_of(resp: JsonValue, path: Seq<char>) -> Option<nat> {
    match member(resp, path) {
        Some(JsonValue::Array(items)) => Some(items@.len()),
        _ => None,
    }
}

/// How many items the array under `path` holds.
pub fn list_len(resp: &JsonValue, path: &str) -> (r: Result<usize, MappingError>)
    ensures
        match r {
            Ok(n) => list_len_of(*resp, path@) == Some(n as nat),
            Err(e) => list_len_of(*resp, path@) is None && e == MappingError::UnexpectedShape,
        },
{
    match resp.get(path) {
        Some(JsonValue::Array(items)) => Ok(items.len()),
        _ => Err(MappingError::UnexpectedShape),
    }
}

/// The `name` string of the object under `path`.
pub open spec fn name_of(resp: JsonValue, path: Seq<char>) -> Option<String> {
    match member(resp, path) {
        Some(info) => match member(info, "name"@) {
            Some(JsonValue::Str(s)) => Some(s),
            _ => None,
        },
        None => None,
    }
}

/// The name that an interface information response gives under `path`.
pub fn port_name(resp: &JsonValue, path: &str) -> (r: Result<String, MappingError>)
    ensures
        match r {
            Ok(s) => name_of(*resp, path@) == Some(s),
            Err(e) => name_of(*resp, path@) is None && e == (if member(*resp, path@) is Some {
                MappingError::MissingName
            } else {
                MappingError::UnexpectedShape
            }),
        },
{
    match resp.get(path) {
        Some(info) => match info.get("name") {
            Some(JsonValue::Str(s)) => Ok(s.clone()),
            _ => Err(MappingError::MissingName),
        },
        None => Err(MappingError::UnexpectedShape),
    }
}

/// The number of workers on `cores` logical cores of which `reserved` host
/// no worker (the main core and the key-manager core).
pub fn worker_count(cores: usize, reserved: usize) -> (r: Result<usize, MappingError>)
    ensures
        cores >= reserved ==> r == Ok::<usize, MappingError>((cores - reserved) as usize),
        cores < reserved ==> r == Err::<usize, MappingError>(MappingError::TooFewCores),
{
    if cores < reserved {
        Err(MappingError::TooFewCores)
    } else {
        Ok(cores - reserved)
    }
}

} // verus!
