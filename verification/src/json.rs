//! JSON values as plain data: what the argument conversion reads of a parsed
//! JSON document.

use vstd::prelude::*;

verus! {

/// A JSON number, held as `serde_json` holds it: a non-negative integer, a
/// negative integer, or a finite floating-point number given by the bits of
/// its IEEE 754 double-precision representation.
#[derive(Debug, Clone, Copy, PartialEq, Eq)]
pub enum JsonNumber {
    PosInt(u64),
    NegInt(i64),
    Float(u64),
}

/// A JSON value. An object keeps its members in order, each key once.
#[derive(Debug)]
pub enum JsonValue {
    Null,
    Bool(bool),
    Number(JsonNumber),
    String(String),
    Array(Vec<JsonValue>),
    Object(Vec<(String, JsonValue)>),
}

/// The number as an `i64`, where it is an integer that fits
/// (`Number::as_i64`).
pub open spec fn number_as_i64(n: JsonNumber) -> Option<i64> {
    match n {
        JsonNumber::PosInt(u) => if u <= i64::MAX as u64 {
            Some(u as i64)
        } else {
            None
        },
        JsonNumber::NegInt(i) => Some(i),
        JsonNumber::Float(_) => None,
    }
}

/// The number as a `u64`, where it is a non-negative integer
/// (`Number::as_u64`).
pub open spec fn number_as_u64(n: JsonNumber) -> Option<u64> {
    match n {
        JsonNumber::PosInt(u) => Some(u),
        _ => None,
    }
}

/// The value as an `i64` (`Value::as_i64`).
pub open spec fn value_as_i64(v: JsonValue) -> Option<i64> {
    match v {
        JsonValue::Number(n) => number_as_i64(n),
        _ => None,
    }
}

/// The value as a `u64` (`Value::as_u64`).
pub open spec fn value_as_u64(v: JsonValue) -> Option<u64> {
    match v {
        JsonValue::Number(n) => number_as_u64(n),
        _ => None,
    }
}

/// The member of an object with key `key`: the first one, where the
/// entries hold it more than once.
pub open spec fn member(entries: Seq<(String, JsonValue)>, key: Seq<char>) -> Option<JsonValue>
    decreases entries.len(),
{
    if entries.len() == 0 {
        None
    } else if entries[0].0@ == key {
        Some(entries[0].1)
    } else {
        member(entries.drop_first(), key)
    }
}

impl JsonNumber {
    /// The number as an `i64`, where it is an integer that fits.
    pub fn as_i64(&self) -> (r: Option<i64>)
        ensures
            r == number_as_i64(*self),
    {
        match self {
            JsonNumber::PosInt(u) => if *u <= i64::MAX as u64 {
                Some(*u as i64)
            } else {
                None
            },
            JsonNumber::NegInt(i) => Some(*i),
            JsonNumber::Float(_) => None,
        }
    }

    /// The number as a `u64`, where it is a non-negative integer.
    pub fn as_u64(&self) -> (r: Option<u64>)
        ensures
            r == number_as_u64(*self),
    {
        match self {
            JsonNumber::PosInt(u) => Some(*u),
            _ => None,
        }
    }
}

proof fn lemma_member_found(entries: Seq<(String, JsonValue)>, key: Seq<char>, i: int)
    requires
        0 <= i < entries.len(),
        entries[i].0@ == key,
        forall|k: int| 0 <= k < i ==> (#[trigger] entries[k]).0@ != key,
    ensures
        member(entries, key) == Some(entries[i].1),
    decreases i,
{
    if i > 0 {
        assert forall|k: int| 0 <= k < i - 1 implies (#[trigger] entries.drop_first()[k]).0@
            != key by {
            assert(entries.drop_first()[k] == entries[k + 1]);
        }
        lemma_member_found(entries.drop_first(), key, i - 1);
    }
}

proof fn lemma_member_absent(entries: Seq<(String, JsonValue)>, key: Seq<char>)
    requires
        forall|k: int| 0 <= k < entries.len() ==> (#[trigger] entries[k]).0@ != key,
    ensures
        member(entries, key) is None,
    decreases entries.len(),
{
    if entries.len() > 0 {
        assert forall|k: int| 0 <= k < entries.len() - 1 implies (
        #[trigger] entries.drop_first()[k]).0@ != key by {
            assert(entries.drop_first()[k] == entries[k + 1]);
        }
        lemma_member_absent(entries.drop_first(), key);
    }
}

/// The member of an object with key `key` (`Map::get`).
pub fn object_get<'a>(entries: &'a Vec<(String, JsonValue)>, key: &String) -> (r: Option<
    &'a JsonValue,
>)
    ensures
        match r {
            Some(v) => member(entries@, key@) == Some(*v),
            None => member(entries@, key@) is None,
        },
{
    let mut i: usize = 0;
    while i < entries.len()
        invariant
            i <= entries@.len(),
            forall|k: int| 0 <= k < i ==> (#[trigger] entries@[k]).0@ != key@,
        decreases entries@.len() - i,
    {
        if entries[i].0 == *key {
            proof {
                lemma_member_found(entries@, key@, i as int);
            }
            return Some(&entries[i].1);
        }
        i = i + 1;
    }
    proof {
        lemma_member_absent(entries@, key@);
    }
    None
}

/// A parsed JSON document of `serde_json`.
#[verifier::external_type_specification]
#[verifier::external_body]
pub struct ExSerdeJsonValue(serde_json::Value);

/// A JSON number of `serde_json`.
#[verifier::external_type_specification]
#[verifier::external_body]
pub struct ExSerdeJsonNumber(serde_json::Number);

/// The JSON value that `serde_json::from_str` reads from the text `text`,
/// or `None` where the text is not one JSON document.
pub uninterp spec fn json_text_value(text: Seq<char>) -> Option<JsonValue>;

/// `serde_json`'s number as one of the three forms it holds: the
/// non-negative integer (`as_u64`), the negative integer (`as_i64`), or the
/// bits of the finite float (`as_f64`). Nothing is stated of it here: it is
/// the conversion of the result of `parse_json_text`.
#[verifier::external_body]
fn json_number_of(n: &serde_json::Number) -> JsonNumber {
    match (n.as_u64(), n.as_i64()) {
        (Some(u), _) => JsonNumber::PosInt(u),
        (None, Some(i)) => JsonNumber::NegInt(i),
        (None, None) => JsonNumber::Float(n.as_f64().map_or(0, |x| x.to_bits())),
    }
}

/// `serde_json`'s value as a `JsonValue`, one variant for one, the members
/// of an object in the order in which `serde_json` keeps them. Nothing is
/// stated of it here: it is the conversion of the result of
/// `parse_json_text`.
#[verifier::external_body]
fn json_value_of(value: &serde_json::Value) -> JsonValue {
    match value {
        serde_json::Value::Null => JsonValue::Null,
        serde_json::Value::Bool(b) => JsonValue::Bool(*b),
        serde_json::Value::Number(n) => JsonValue::Number(json_number_of(n)),
        serde_json::Value::String(s) => JsonValue::String(s.clone()),
        serde_json::Value::Array(a) => JsonValue::Array(a.iter().map(json_value_of).collect()),
        serde_json::Value::Object(m) => JsonValue::Object(m.iter().map(|(k, v)| (k.clone(), json_value_of(v))).collect()),
    }
}

/// Parses the text of one JSON document (`serde_json::from_str` into
/// `serde_json::Value`). The result is named: it depends on the text alone,
/// and `None` stands for the parse error.
#[verifier::external_body]
pub fn parse_json_text(text: &str) -> (r: Option<JsonValue>)
    ensures
        r == json_text_value(text@),
{
    serde_json::from_str::<serde_json::Value>(text).ok().map(|v| json_value_of(&v))
}

} // verus!
