//! A plain model of JSON documents, holding exactly what the validators and
//! tools read: the kind of each value, strings, booleans, integers, and the
//! ordered entries of objects.
use vstd::prelude::*;
use crate::text::str_eq;

verus! {

/// A JSON value.
///
/// Numbers keep only what the library reads of them: their value when it is an
/// integer that fits in `i64` (what `as_i64` gives, `None` otherwise), and
/// whether they are integers at all (`is_i64() || is_u64()`).
#[derive(Debug)]
pub enum JsonValue {
    Null,
    Bool(bool),
    Number(Option<i64>, bool),
    Str(String),
    Array(Vec<JsonValue>),
    Object(Vec<(String, JsonValue)>),
}

/// The first entry of `m` whose key is `key`.
pub open spec fn lookup(m: Seq<(String, JsonValue)>, key: Seq<char>) -> Option<JsonValue>
    decreases m.len(),
{
    if m.len() == 0 {
        None
    } else if m[0].0@ == key {
        Some(m[0].1)
    } else {
        lookup(m.drop_first(), key)
    }
}

/// `m` has an entry whose key is `key`.
pub open spec fn has_key(m: Seq<(String, JsonValue)>, key: Seq<char>) -> bool {
    lookup(m, key) is Some
}

/// The string held by `v`, if it is a string.
pub open spec fn str_of(v: Option<JsonValue>) -> Option<Seq<char>> {
    match v {
        Some(JsonValue::Str(s)) => Some(s@),
        _ => None,
    }
}

/// The boolean held by `v`, if it is a boolean.
pub open spec fn bool_of(v: Option<JsonValue>) -> Option<bool> {
    match v {
        Some(JsonValue::Bool(b)) => Some(b),
        _ => None,
    }
}

/// The integer held by `v`, if it is an integer that fits in `i64`.
pub open spec fn int_of(v: Option<JsonValue>) -> Option<i64> {
    match v {
        Some(JsonValue::Number(n, _)) => n,
        _ => None,
    }
}

/// The elements of `v`, if it is an array.
pub open spec fn array_of(v: Option<JsonValue>) -> Option<Seq<JsonValue>> {
    match v {
        Some(JsonValue::Array(a)) => Some(a@),
        _ => None,
    }
}

/// The entries of `v`, if it is an object.
pub open spec fn object_of(v: Option<JsonValue>) -> Option<Seq<(String, JsonValue)>> {
    match v {
        Some(JsonValue::Object(m)) => Some(m@),
        _ => None,
    }
}

/// `m[key]` read as a string (`m.get(key).and_then(as_str)`).
pub open spec fn get_str(m: Seq<(String, JsonValue)>, key: Seq<char>) -> Option<Seq<char>> {
    str_of(lookup(m, key))
}

/// `m[key]` read as a boolean, `false` when absent or not a boolean.
pub open spec fn get_flag(m: Seq<(String, JsonValue)>, key: Seq<char>) -> bool {
    bool_of(lookup(m, key)) == Some(true)
}

/// `m[key]` read as an array.
pub open spec fn get_array(m: Seq<(String, JsonValue)>, key: Seq<char>) -> Option<Seq<JsonValue>> {
    array_of(lookup(m, key))
}

/// Finds the entry of `m` whose key is `key`.
pub fn get<'a>(m: &'a Vec<(String, JsonValue)>, key: &str) -> (r: Option<&'a JsonValue>)
    ensures
        r is Some <==> lookup(m@, key@) is Some,
        r is Some ==> *r->0 == lookup(m@, key@)->0,
{
    let mut i: usize = 0;
    assert(m@.subrange(0, m@.len() as int) =~= m@);
    while i < m.len()
        invariant
            i <= m@.len(),
            lookup(m@, key@) == lookup(m@.subrange(i as int, m@.len() as int), key@),
        decreases m@.len() - i,
    {
        let ghost rest = m@.subrange(i as int, m@.len() as int);
        proof {
            assert(rest[0] == m@[i as int]);
            assert(rest.drop_first() =~= m@.subrange(i + 1, m@.len() as int));
        }
        if str_eq(m[i].0.as_str(), key) {
            return Some(&m[i].1);
        }
        i = i + 1;
    }
    None
}

/// `m.contains_key(key)`.
pub fn contains_key(m: &Vec<(String, JsonValue)>, key: &str) -> (r: bool)
    ensures
        r == has_key(m@, key@),
{
    get(m, key).is_some()
}

/// `m.get(key).and_then(as_str)`.
pub fn get_str_exec<'a>(m: &'a Vec<(String, JsonValue)>, key: &str) -> (r: Option<&'a str>)
    ensures
        r is Some <==> get_str(m@, key@) is Some,
        r is Some ==> r->0@ == get_str(m@, key@)->0,
{
    match get(m, key) {
        Some(JsonValue::Str(s)) => Some(s.as_str()),
        _ => None,
    }
}

/// `m.get(key).and_then(as_bool).unwrap_or(false)`.
pub fn get_flag_exec(m: &Vec<(String, JsonValue)>, key: &str) -> (r: bool)
    ensures
        r == get_flag(m@, key@),
{
    match get(m, key) {
        Some(JsonValue::Bool(b)) => *b,
        _ => false,
    }
}

/// `m.get(key).and_then(as_i64)`.
pub fn get_int_exec(m: &Vec<(String, JsonValue)>, key: &str) -> (r: Option<i64>)
    ensures
        r == int_of(lookup(m@, key@)),
{
    match get(m, key) {
        Some(JsonValue::Number(n, _)) => *n,
        _ => None,
    }
}

/// `m.get(key).and_then(as_array)`.
pub fn get_array_exec<'a>(m: &'a Vec<(String, JsonValue)>, key: &str) -> (r: Option<&'a Vec<JsonValue>>)
    ensures
        r is Some <==> get_array(m@, key@) is Some,
        r is Some ==> r->0@ == get_array(m@, key@)->0,
{
    match get(m, key) {
        Some(JsonValue::Array(a)) => Some(a),
        _ => None,
    }
}

impl JsonValue {
    /// A string value.
    pub fn string(s: &str) -> (r: JsonValue)
        ensures
            r is Str,
            r->Str_0@ == s@,
    {
        JsonValue::Str(crate::text::owned(s))
    }

    /// An empty object.
    pub fn empty_object() -> (r: JsonValue)
        ensures
            r is Object,
            r->Object_0@.len() == 0,
    {
        JsonValue::Object(Vec::new())
    }
}

} // verus!
