//! A structural model of parsed JSON, and the trusted parse behind it.
//!
//! The schema normalizer works on `JsonVal`, a plain-value mirror of a
//! parsed JSON document. Parsing itself is the outside crate's work: a
//! trusted wrapper calls `serde_json` and hands the parsed tree over as a
//! `JsonVal`, one variant per JSON shape. Numbers carry what the logic
//! reads of them: the bit pattern of the engine's 64-bit binary coordinate
//! value, and the exact integer value where the number is an integer.

use vstd::prelude::*;

verus! {

/// One JSON number, as the logic reads it.
///
/// `bits` is the number as an IEEE 754 binary64 bit pattern, the form in
/// which bounding-box coordinates pass through the normalizer untouched.
/// `as_u` and `as_i` hold the exact value of an integer-shaped number where
/// it fits the respective type; both are `None` for a fractional number.
#[derive(Clone, Copy, Debug, PartialEq, Eq)]
pub struct JsonNum {
    pub bits: u64,
    pub as_u: Option<u64>,
    pub as_i: Option<i64>,
}

/// A parsed JSON value. An object is a key-ordered list of unique keys with
/// their values, as the parser hands them out.
#[derive(Debug)]
pub enum JsonVal {
    Null,
    Bool(bool),
    Num(JsonNum),
    Str(String),
    Arr(Vec<JsonVal>),
    Obj(Vec<(String, JsonVal)>),
}

/// The value under `key` in an object's field list: the first entry whose
/// key matches. The parser never produces a duplicate key, so first and
/// last match agree on parsed input.
pub open spec fn obj_lookup(fields: Seq<(String, JsonVal)>, key: Seq<char>) -> Option<JsonVal>
    decreases fields.len(),
{
    if fields.len() == 0 {
        None
    } else if fields[0].0@ == key {
        Some(fields[0].1)
    } else {
        obj_lookup(fields.drop_first(), key)
    }
}

/// Looks `key` up in an object's field list.
pub fn lookup<'a>(fields: &'a Vec<(String, JsonVal)>, key: &String) -> (r: Option<&'a JsonVal>)
    ensures
        match r {
            Some(v) => obj_lookup(fields@, key@) == Some(*v),
            None => obj_lookup(fields@, key@) is None,
        },
{
    let n = fields.len();
    let mut i: usize = 0;
    proof {
        assert(fields@.skip(0) =~= fields@);
    }
    while i < n
        invariant
            i <= n,
            n == fields@.len(),
            obj_lookup(fields@, key@) == obj_lookup(fields@.skip(i as int), key@),
        decreases n - i,
    {
        if fields[i].0.eq(key) {
            proof {
                assert(fields@.skip(i as int)[0] == fields@[i as int]);
                assert(obj_lookup(fields@.skip(i as int), key@) == Some(fields@[i as int].1));
            }
            return Some(&fields[i].1);
        }
        proof {
            assert(fields@.skip(i as int)[0] == fields@[i as int]);
            assert(fields@.skip(i as int).drop_first() =~= fields@.skip(i as int + 1));
        }
        i = i + 1;
    }
    proof {
        assert(fields@.skip(n as int) =~= Seq::<(String, JsonVal)>::empty());
    }
    None
}

#[verifier::external_type_specification]
#[verifier::external_body]
pub struct ExValue(serde_json::Value);

/// The `JsonVal` image of a `serde_json::Value`, one arm per variant.
/// Relies on `serde_json::Number`: without the crate's arbitrary-precision
/// feature, `as_f64` always returns the value as a 64-bit float, `as_u64`
/// returns exactly the nonnegative integers, and `as_i64` exactly the
/// integers of the signed 64-bit range.
#[verifier::external_body]
fn json_val_of(v: &serde_json::Value) -> JsonVal {
    match v {
        serde_json::Value::Null => JsonVal::Null,
        serde_json::Value::Bool(b) => JsonVal::Bool(*b),
        serde_json::Value::Number(n) => JsonVal::Num(JsonNum {
            bits: n.as_f64().map(|x| x.to_bits()).unwrap_or(0),
            as_u: n.as_u64(),
            as_i: n.as_i64(),
        }),
        serde_json::Value::String(s) => JsonVal::Str(s.clone()),
        serde_json::Value::Array(a) => JsonVal::Arr(a.iter().map(json_val_of).collect()),
        serde_json::Value::Object(o) => JsonVal::Obj(
            o.iter().map(|e| (e.0.clone(), json_val_of(e.1))).collect(),
        ),
    }
}

/// The parse of `s` as one JSON document: its `JsonVal` image, or `None`
/// where `s` is not well-formed JSON. The parse depends on the text alone.
pub uninterp spec fn parsed_json(s: Seq<char>) -> Option<JsonVal>;

/// Relies on `serde_json::from_str::<Value>`: parses one JSON document, a
/// deterministic function of the text.
#[verifier::external_body]
pub(crate) fn parse_json(s: &str) -> (r: Option<JsonVal>)
    ensures
        r == parsed_json(s@),
{
    match serde_json::from_str::<serde_json::Value>(s) {
        Ok(v) => Some(json_val_of(&v)),
        Err(_) => None,
    }
}

} // verus!
