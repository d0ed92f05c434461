//! A plain-value JSON tree that the verified payload parser can walk, and the
//! single trusted entry point that produces it from raw bytes via serde_json.
use vstd::prelude::*;

verus! {

/// A JSON document as plain values. Object fields keep the order in which
/// serde_json's map hands them out; numbers that do not fit `i64` (fractions,
/// huge magnitudes) are kept only as [`JsonValue::OtherNumber`], since no
/// field this library reads may hold one.
pub enum JsonValue {
    Null,
    Bool(bool),
    Int(i64),
    OtherNumber,
    Str(String),
    Arr(Vec<JsonValue>),
    Obj(Vec<(String, JsonValue)>),
}

/// The JSON document that the given bytes denote, or `None` when they are not
/// valid JSON. Parsing is a pure function of the bytes, so the result has a
/// name rather than a definition.
pub uninterp spec fn json_of(s: Seq<u8>) -> Option<JsonValue>;

#[verifier::external_type_specification]
#[verifier::external_body]
pub struct ExJsonValue(serde_json::Value);

/// Relies on serde_json::from_slice::<serde_json::Value>: deserializing is
/// deterministic in the input bytes and fails exactly on invalid JSON.
#[verifier::external_body]
pub fn parse_json(s: &[u8]) -> (r: Option<JsonValue>)
    ensures
        r == json_of(s@),
{
    match serde_json::from_slice::<serde_json::Value>(s) {
        Ok(v) => Some(from_value(v)),
        Err(_) => None,
    }
}

/// Relies on serde_json::Value and serde_json::Number::as_i64: carries the
/// parsed tree over into the library's form, variant by variant.
#[verifier::external_body]
fn from_value(v: serde_json::Value) -> JsonValue {
    match v {
        serde_json::Value::Null => JsonValue::Null,
        serde_json::Value::Bool(b) => JsonValue::Bool(b),
        serde_json::Value::Number(n) => match n.as_i64() {
            Some(i) => JsonValue::Int(i),
            None => JsonValue::OtherNumber,
        },
        serde_json::Value::String(s) => JsonValue::Str(s),
        serde_json::Value::Array(a) => JsonValue::Arr(a.into_iter().map(from_value).collect()),
        serde_json::Value::Object(o) => JsonValue::Obj(
            o.into_iter().map(|(k, w)| (k, from_value(w))).collect(),
        ),
    }
}

/// First binding of `key` among `fields`, searched front to back.
pub open spec fn spec_get(fields: Seq<(String, JsonValue)>, key: Seq<char>) -> Option<JsonValue>
    decreases fields.len(),
{
    if fields.len() == 0 {
        None
    } else if fields[0].0@ == key {
        Some(fields[0].1)
    } else {
        spec_get(fields.skip(1), key)
    }
}

/// Looks `key` up among `fields`, mirroring [`spec_get`].
pub fn get_field<'a>(fields: &'a Vec<(String, JsonValue)>, key: &String) -> (r: Option<
    &'a JsonValue,
>)
    ensures
        match r {
            Some(v) => spec_get(fields@, key@) == Some(*v),
            None => spec_get(fields@, key@) == None::<JsonValue>,
        },
{
    proof {
        assert(fields@.skip(0) =~= fields@);
    }
    let mut i: usize = 0;
    while i < fields.len()
        invariant
            i <= fields@.len(),
            spec_get(fields@, key@) == spec_get(fields@.skip(i as int), key@),
        decreases fields@.len() - i,
    {
        proof {
            assert(fields@.skip(i as int)[0] == fields@[i as int]);
        }
        if fields[i].0 == *key {
            return Some(&fields[i].1);
        }
        proof {
            assert(fields@.skip(i as int).skip(1) =~= fields@.skip(i as int + 1));
        }
        i = i + 1;
    }
    None
}

} // verus!
