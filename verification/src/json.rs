//! JSON documents as plain values, and the lookups that manifests need.

use vstd::prelude::*;

verus! {

#[verifier::external_type_specification]
#[verifier::external_body]
pub struct ExJsonValue(serde_json::Value);

/// A JSON value. A number is kept as what `as_u64` gives of it (`None` for
/// a negative or fractional number); an object keeps its entries in the
/// order the parser yields them.
#[derive(Debug)]
pub enum JsonValue {
    Null,
    Bool(bool),
    Num(Option<u64>),
    Str(String),
    Array(Vec<JsonValue>),
    Object(Vec<(String, JsonValue)>),
}

/// What `serde_json::from_str::<serde_json::Value>` gives for a text, as a
/// plain value; `None` where the text is no JSON.
pub uninterp spec fn json_parse(s: Seq<char>) -> Option<JsonValue>;

/// A parsed `serde_json::Value` as a plain value, variant by variant.
#[verifier::external_body]
fn json_convert(v: &serde_json::Value) -> (r: JsonValue) {
    match v {
        serde_json::Value::Null => JsonValue::Null,
        serde_json::Value::Bool(b) => JsonValue::Bool(*b),
        serde_json::Value::Number(n) => JsonValue::Num(n.as_u64()),
        serde_json::Value::String(s) => JsonValue::Str(s.clone()),
        serde_json::Value::Array(a) => JsonValue::Array(a.iter().map(json_convert).collect()),
        serde_json::Value::Object(o) => JsonValue::Object(o.iter().map(|(k, x)| (k.clone(), json_convert(x))).collect()),
    }
}

/// `serde_json::from_str::<serde_json::Value>`: the document, or `None`
/// where the text is no JSON. The result is a function of the text alone,
/// named `json_parse`.
#[verifier::external_body]
pub(crate) fn json_value_of(json: &str) -> (r: Option<JsonValue>)
    ensures
        r == json_parse(json@),
{
    match serde_json::from_str::<serde_json::Value>(json) {
        Ok(v) => Some(json_convert(&v)),
        Err(_) => None,
    }
}

/// An optional reference, by the value it points to.
pub open spec fn oref(o: Option<&JsonValue>) -> Option<JsonValue> {
    match o {
        Some(y) => Some(*y),
        None => None,
    }
}

/// The value of the first entry named `k` among `es`.
pub open spec fn first_field(es: Seq<(String, JsonValue)>, k: Seq<char>) -> Option<JsonValue>
    decreases es.len(),
{
    if es.len() == 0 {
        None
    } else if es[0].0@ == k {
        Some(es[0].1)
    } else {
        first_field(es.drop_first(), k)
    }
}

/// `Value::get(k)`: the field `k` of an object; nothing for other values.
pub open spec fn field(v: Option<JsonValue>, k: Seq<char>) -> Option<JsonValue> {
    match v {
        Some(JsonValue::Object(es)) => first_field(es@, k),
        _ => None,
    }
}

/// `Value::as_str`.
pub open spec fn str_of(v: Option<JsonValue>) -> Option<Seq<char>> {
    match v {
        Some(JsonValue::Str(s)) => Some(s@),
        _ => None,
    }
}

/// `Value::as_u64`.
pub open spec fn u64_of(v: Option<JsonValue>) -> Option<u64> {
    match v {
        Some(JsonValue::Num(n)) => n,
        _ => None,
    }
}

/// The field `k` of `v` (see `field`).
#[verifier::loop_isolation(false)]
pub fn get<'a>(v: Option<&'a JsonValue>, k: &str) -> (r: Option<&'a JsonValue>)
    ensures
        match r {
            Some(x) => field(
                oref(v),
                k@,
            ) == Some(*x),
            None => field(
                oref(v),
                k@,
            ) is None,
        },
{
    match v {
        Some(JsonValue::Object(es)) => {
            let mut i: usize = 0;
            assert(es@.skip(0) =~= es@);
            while i < es.len()
                invariant
                    i <= es@.len(),
                    first_field(es@, k@) == first_field(es@.skip(i as int), k@),
                decreases es@.len() - i,
            {
                assert(es@.skip(i as int)[0] == es@[i as int]);
                if crate::text::str_eq(es[i].0.as_str(), k) {
                    return Some(&es[i].1);
                }
                assert(es@.skip(i as int).drop_first() =~= es@.skip(i + 1));
                i += 1;
            }
            None
        },
        _ => None,
    }
}

/// `Value::as_str`.
pub fn as_str(v: Option<&JsonValue>) -> (r: Option<String>)
    ensures
        crate::text::opt_view(r) == str_of(
            oref(v),
        ),
{
    match v {
        Some(JsonValue::Str(s)) => Some(s.clone()),
        _ => None,
    }
}

/// `Value::as_u64`.
pub fn as_u64(v: Option<&JsonValue>) -> (r: Option<u64>)
    ensures
        r == u64_of(
            oref(v),
        ),
{
    match v {
        Some(JsonValue::Num(n)) => *n,
        _ => None,
    }
}

} // verus!
