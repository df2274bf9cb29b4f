//! A JSON document as plain values, and the lookups that read it the way
//! `serde_json::Value` does.

use vstd::prelude::*;

verus! {

/// A JSON number as `serde_json` keeps it: a non-negative integer, a
/// negative integer, or a float (kept by the bits of its `f64`).
#[derive(PartialEq, Eq, Structural, Clone, Copy)]
pub enum JsonNumber {
    PosInt(u64),
    NegInt(i64),
    Float(u64),
}

/// A JSON value. An object keeps its entries with distinct keys.
pub enum Json {
    Null,
    Bool(bool),
    Number(JsonNumber),
    Str(String),
    Array(Vec<Json>),
    Object(Vec<(String, Json)>),
}

/// The value under `key` among `entries`, the first one when a key repeats.
pub open spec fn entry_lookup(entries: Seq<(String, Json)>, key: Seq<char>) -> Option<Json>
    decreases entries.len(),
{
    if entries.len() == 0 {
        None
    } else if entries[0].0@ == key {
        Some(entries[0].1)
    } else {
        entry_lookup(entries.drop_first(), key)
    }
}

/// `Value::get(key)`: the member `key` of an object, and nothing for any
/// other value.
pub open spec fn spec_get(v: Json, key: Seq<char>) -> Option<Json> {
    match v {
        Json::Object(entries) => entry_lookup(entries@, key),
        _ => None,
    }
}

/// `Value::as_str`.
pub open spec fn spec_as_str(v: Json) -> Option<Seq<char>> {
    match v {
        Json::Str(s) => Some(s@),
        _ => None,
    }
}

/// `Value::as_array`.
pub open spec fn spec_as_array(v: Json) -> Option<Seq<Json>> {
    match v {
        Json::Array(items) => Some(items@),
        _ => None,
    }
}

/// `Value::as_i64`: an integer that fits in `i64`.
pub open spec fn spec_as_i64(v: Json) -> Option<i64> {
    match v {
        Json::Number(JsonNumber::PosInt(n)) => if n <= i64::MAX { Some(n as i64) } else { None },
        Json::Number(JsonNumber::NegInt(n)) => Some(n),
        _ => None,
    }
}

/// `Value::as_f64` is `Some` exactly for numbers; this is the number.
pub open spec fn spec_as_number(v: Json) -> Option<JsonNumber> {
    match v {
        Json::Number(n) => Some(n),
        _ => None,
    }
}

/// `Value::get(key)`.
pub fn get<'a>(v: &'a Json, key: &str) -> (r: Option<&'a Json>)
    ensures
        r matches Some(x) ==> spec_get(*v, key@) == Some(*x),
        r is None ==> spec_get(*v, key@) is None,
{
    match v {
        Json::Object(entries) => {
            let n = entries.len();
            let key_string = key.to_owned();
            assert(entries@.skip(0) =~= entries@);
            for i in 0..n
                invariant
                    n == entries@.len(),
                    spec_get(*v, key@) == entry_lookup(entries@, key@),
                    key_string@ == key@,
                    entry_lookup(entries@, key@) == entry_lookup(entries@.skip(i as int), key@),
            {
                let ghost rest = entries@.skip(i as int);
                assert(rest.drop_first() =~= entries@.skip(i + 1));
                if entries[i].0 == key_string {
                    assert(rest[0] == entries@[i as int]);
                    return Some(&entries[i].1);
                }
            }
            assert(entries@.skip(n as int).len() == 0);
            None
        },
        _ => None,
    }
}

/// `Value::as_str`.
pub fn as_str(v: &Json) -> (r: Option<&String>)
    ensures
        r matches Some(s) ==> spec_as_str(*v) == Some(s@),
        r is None ==> spec_as_str(*v) is None,
{
    match v {
        Json::Str(s) => Some(s),
        _ => None,
    }
}

/// `Value::as_array`.
pub fn as_array(v: &Json) -> (r: Option<&Vec<Json>>)
    ensures
        r matches Some(items) ==> spec_as_array(*v) == Some(items@),
        r is None ==> spec_as_array(*v) is None,
{
    match v {
        Json::Array(items) => Some(items),
        _ => None,
    }
}

/// `Value::as_i64`.
pub fn as_i64(v: &Json) -> (r: Option<i64>)
    ensures
        r == spec_as_i64(*v),
{
    match v {
        Json::Number(JsonNumber::PosInt(n)) => if *n <= 0x7fff_ffff_ffff_ffff {
            Some(*n as i64)
        } else {
            None
        },
        Json::Number(JsonNumber::NegInt(n)) => Some(*n),
        _ => None,
    }
}

/// The number of `v`, when it is one (`Value::as_f64` is `Some` then).
pub fn as_number(v: &Json) -> (r: Option<JsonNumber>)
    ensures
        r == spec_as_number(*v),
{
    match v {
        Json::Number(n) => Some(*n),
        _ => None,
    }
}

} // verus!
