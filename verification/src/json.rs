//! JSON values as the rest of the library reads them.
//!
//! Responses are decoded from text by the application; the library holds the
//! decoded value. A number keeps the readings of it that the logic uses.

use crate::text::str_eq;
use vstd::prelude::*;

verus! {

/// A JSON number, held by the readings the logic makes of it.
#[derive(Debug)]
pub struct JsonNumber {
    /// The number as an `i64`, when it is an integer in range.
    pub as_i64: Option<i64>,
    /// The number as a float, converted to `i64` the way `f64 as i64` does
    /// (toward zero, saturating).
    pub f64_trunc: i64,
    /// The number as a float, printed the way `f64`'s `Display` prints it.
    pub f64_text: String,
    /// The number printed as JSON.
    pub text: String,
}

/// A JSON value. Object entries keep the order in which they were decoded.
#[derive(Debug)]
pub enum Json {
    Null,
    Bool(bool),
    Number(JsonNumber),
    String(String),
    Array(Vec<Json>),
    Object(Vec<(String, Json)>),
}

/// The value of the first entry named `key`.
pub open spec fn obj_get(entries: Seq<(String, Json)>, key: Seq<char>) -> Option<Json>
    decreases entries.len(),
{
    if entries.len() == 0 {
        None
    } else if entries[0].0@ == key {
        Some(entries[0].1)
    } else {
        obj_get(entries.drop_first(), key)
    }
}

/// `Value::get(key)`: the member `key` of an object; nothing for other values.
pub open spec fn field(v: Json, key: Seq<char>) -> Option<Json> {
    match v {
        Json::Object(e) => obj_get(e@, key),
        _ => None,
    }
}

/// `Value::get(key).and_then(Value::as_str)`.
pub open spec fn field_str(v: Json, key: Seq<char>) -> Option<Seq<char>> {
    match field(v, key) {
        Some(Json::String(s)) => Some(s@),
        _ => None,
    }
}

/// `Value::get(key).and_then(Value::as_f64).unwrap_or(0.0) as i64`.
pub open spec fn field_code(v: Json, key: Seq<char>) -> i64 {
    match field(v, key) {
        Some(Json::Number(n)) => n.f64_trunc,
        _ => 0,
    }
}

/// `Value::get(key).and_then(Value::as_str).unwrap_or("")`.
pub open spec fn field_str_or_empty(v: Json, key: Seq<char>) -> Seq<char> {
    match field_str(v, key) {
        Some(s) => s,
        None => Seq::empty(),
    }
}

/// The first entry named `key`.
pub fn entries_get<'a>(entries: &'a Vec<(String, Json)>, key: &str) -> (r: Option<&'a Json>)
    ensures
        match obj_get(entries@, key@) {
            Some(x) => r matches Some(y) && *y == x,
            None => r is None,
        },
{
    let mut i: usize = 0;
    assert(entries@.skip(0) =~= entries@);
    while i < entries.len()
        invariant
            i <= entries@.len(),
            obj_get(entries@, key@) == obj_get(entries@.skip(i as int), key@),
        decreases entries@.len() - i,
    {
        let e = &entries[i];
        assert(entries@.skip(i as int)[0] == entries@[i as int]);
        assert(entries@.skip(i as int).drop_first() =~= entries@.skip(i + 1));
        if str_eq(e.0.as_str(), key) {
            return Some(&e.1);
        }
        i = i + 1;
    }
    None
}

impl Json {
    /// `Value::get(key)`.
    pub fn get(&self, key: &str) -> (r: Option<&Json>)
        ensures
            match field(*self, key@) {
                Some(x) => r matches Some(y) && *y == x,
                None => r is None,
            },
    {
        match self {
            Json::Object(e) => entries_get(e, key),
            _ => None,
        }
    }

    /// `Value::as_str`.
    pub fn as_str(&self) -> (r: Option<&str>)
        ensures
            match *self {
                Json::String(s) => r matches Some(t) && t@ == s@,
                _ => r is None,
            },
    {
        match self {
            Json::String(s) => Some(s.as_str()),
            _ => None,
        }
    }
}

/// `Value::get(key).and_then(Value::as_str)`, copied.
pub fn get_str(v: &Json, key: &str) -> (r: Option<String>)
    ensures
        match field_str(*v, key@) {
            Some(s) => r matches Some(t) && t@ == s,
            None => r is None,
        },
{
    match v.get(key) {
        Some(x) => match x.as_str() {
            Some(s) => Some(String::from_str(s)),
            None => None,
        },
        None => None,
    }
}

/// `Value::get(key).and_then(Value::as_str).unwrap_or("")`, copied.
pub fn get_str_or_empty(v: &Json, key: &str) -> (r: String)
    ensures
        r@ == field_str_or_empty(*v, key@),
{
    match get_str(v, key) {
        Some(s) => s,
        None => String::new(),
    }
}

/// `Value::get(key).and_then(Value::as_f64).unwrap_or(0.0) as i64`.
pub fn get_code(v: &Json, key: &str) -> (r: i64)
    ensures
        r == field_code(*v, key@),
{
    match v.get(key) {
        Some(Json::Number(n)) => n.f64_trunc,
        _ => 0,
    }
}

} // verus!
