//! A JSON request body, as the JSON protocols read it.
use vstd::prelude::*;
use crate::text::str_eq;

verus! {

/// A JSON value. Numbers keep their value when they are integers; other
/// numbers are kept as `Fraction`, without their value, as nothing here reads one.
#[derive(Debug)]
pub enum JsonValue {
    Null,
    Bool(bool),
    Int(i64),
    UInt(u64),
    Fraction,
    Str(String),
    Array(Vec<JsonValue>),
    Object(Vec<(String, JsonValue)>),
}

/// Whether a value is an object without members.
pub open spec fn is_empty_object(v: JsonValue) -> bool {
    v matches JsonValue::Object(entries) && entries@.len() == 0
}

/// Whether `v` is what a JSON request's body reads as: an empty body reads as
/// an empty object, any other body as what the JSON reader made of its bytes.
pub open spec fn body_reads_as(body: Seq<u8>, parsed: Result<JsonValue, String>, v: JsonValue) -> bool {
    if body.len() == 0 {
        is_empty_object(v)
    } else {
        parsed == Ok::<JsonValue, String>(v)
    }
}

/// Whether a JSON request's body cannot be read: it is not empty and the JSON
/// reader refused its bytes.
pub open spec fn body_unreadable(body: Seq<u8>, parsed: Result<JsonValue, String>) -> bool {
    body.len() > 0 && parsed is Err
}

/// A JSON request's body: an empty body is an empty object; any other body is
/// `parsed`, what the JSON reader made of its bytes (its message when they are
/// not JSON).
pub fn json_request_body(body: &[u8], parsed: Result<JsonValue, String>) -> (r: Result<JsonValue, String>)
    ensures
        match r {
            Ok(v) => body_reads_as(body@, parsed, v),
            Err(m) => body_unreadable(body@, parsed) && parsed == Err::<JsonValue, String>(m),
        },
        !body_unreadable(body@, parsed) ==> r is Ok,
{
    if body.len() == 0 {
        Ok(JsonValue::Object(Vec::new()))
    } else {
        parsed
    }
}

/// The member `key` of an object: the first entry with that name.
pub open spec fn member_of(entries: Seq<(String, JsonValue)>, key: Seq<char>) -> Option<JsonValue>
    decreases entries.len(),
{
    if entries.len() == 0 {
        None
    } else if entries[0].0@ == key {
        Some(entries[0].1)
    } else {
        member_of(entries.drop_first(), key)
    }
}

/// The member `key` of a value, if it is an object that has one.
pub open spec fn json_get(v: JsonValue, key: Seq<char>) -> Option<JsonValue> {
    match v {
        JsonValue::Object(entries) => member_of(entries@, key),
        _ => None,
    }
}

/// The text of a string value.
pub open spec fn json_as_str(v: Option<JsonValue>) -> Option<Seq<char>> {
    match v {
        Some(JsonValue::Str(s)) => Some(s@),
        _ => None,
    }
}

/// The value of a boolean.
pub open spec fn json_as_bool(v: Option<JsonValue>) -> Option<bool> {
    match v {
        Some(JsonValue::Bool(b)) => Some(b),
        _ => None,
    }
}

/// The value of a non-negative integer (serde_json's `as_u64`).
pub open spec fn json_as_u64(v: Option<JsonValue>) -> Option<u64> {
    match v {
        Some(JsonValue::UInt(u)) => Some(u),
        Some(JsonValue::Int(i)) => if i >= 0 { Some(i as u64) } else { None },
        _ => None,
    }
}

/// The value of an integer that fits in 64 signed bits (serde_json's `as_i64`).
pub open spec fn json_as_i64(v: Option<JsonValue>) -> Option<i64> {
    match v {
        Some(JsonValue::Int(i)) => Some(i),
        Some(JsonValue::UInt(u)) => if u <= i64::MAX { Some(u as i64) } else { None },
        _ => None,
    }
}

/// The string items of an array, in order; items of other kinds are skipped.
pub open spec fn strings_of(items: Seq<JsonValue>) -> Seq<Seq<char>>
    decreases items.len(),
{
    if items.len() == 0 {
        Seq::empty()
    } else {
        let prev = strings_of(items.drop_last());
        match items.last() {
            JsonValue::Str(s) => prev.push(s@),
            _ => prev,
        }
    }
}

/// The string items of an array member, or none when it is not an array.
pub open spec fn json_strings(v: Option<JsonValue>) -> Seq<Seq<char>> {
    match v {
        Some(JsonValue::Array(items)) => strings_of(items@),
        _ => Seq::empty(),
    }
}

impl JsonValue {
    /// The member `key`, if this is an object that has one.
    pub fn get(&self, key: &str) -> (r: Option<&JsonValue>)
        ensures
            match r {
                Some(m) => json_get(*self, key@) == Some(*m),
                None => json_get(*self, key@) is None,
            },
    {
        match self {
            JsonValue::Object(entries) => {
                let mut i: usize = 0;
                assert(entries@.subrange(0, entries@.len() as int) =~= entries@);
                while i < entries.len()
                    invariant
                        i <= entries@.len(),
                        *self == JsonValue::Object(*entries),
                        member_of(entries@, key@) == member_of(entries@.subrange(i as int, entries@.len() as int), key@),
                    decreases entries@.len() - i,
                {
                    let ghost rest = entries@.subrange(i as int, entries@.len() as int);
                    assert(rest[0] == entries@[i as int]);
                    if str_eq(entries[i].0.as_str(), key) {
                        return Some(&entries[i].1);
                    }
                    assert(rest.drop_first() =~= entries@.subrange(i + 1, entries@.len() as int));
                    i = i + 1;
                }
                None
            },
            _ => None,
        }
    }
}

/// The text of a string member.
pub fn get_str(v: &JsonValue, key: &str) -> (r: Option<String>)
    ensures
        match r {
            Some(s) => json_as_str(json_get(*v, key@)) == Some(s@),
            None => json_as_str(json_get(*v, key@)) is None,
        },
{
    match v.get(key) {
        Some(JsonValue::Str(s)) => Some(s.clone()),
        _ => None,
    }
}

/// The value of a boolean member.
pub fn get_bool(v: &JsonValue, key: &str) -> (r: Option<bool>)
    ensures
        r == json_as_bool(json_get(*v, key@)),
{
    match v.get(key) {
        Some(JsonValue::Bool(b)) => Some(*b),
        _ => None,
    }
}

/// The value of a non-negative integer member.
pub fn get_u64(v: &JsonValue, key: &str) -> (r: Option<u64>)
    ensures
        r == json_as_u64(json_get(*v, key@)),
{
    match v.get(key) {
        Some(JsonValue::UInt(u)) => Some(*u),
        Some(JsonValue::Int(i)) => if *i >= 0 { Some(*i as u64) } else { None },
        _ => None,
    }
}

/// The value of an integer member.
pub fn get_i64(v: &JsonValue, key: &str) -> (r: Option<i64>)
    ensures
        r == json_as_i64(json_get(*v, key@)),
{
    match v.get(key) {
        Some(JsonValue::Int(i)) => Some(*i),
        Some(JsonValue::UInt(u)) => if *u <= 9223372036854775807u64 { Some(*u as i64) } else { None },
        _ => None,
    }
}

/// The string items of an array member.
pub fn get_strings(v: &JsonValue, key: &str) -> (r: Vec<String>)
    ensures
        crate::text::views(r@) == json_strings(json_get(*v, key@)),
{
    let mut out: Vec<String> = Vec::new();
    match v.get(key) {
        Some(JsonValue::Array(items)) => {
            let mut i: usize = 0;
            while i < items.len()
                invariant
                    i <= items@.len(),
                    crate::text::views(out@) == strings_of(items@.subrange(0, i as int)),
                decreases items@.len() - i,
            {
                assert(items@.subrange(0, i + 1).drop_last() =~= items@.subrange(0, i as int));
                let ghost before = out@;
                match &items[i] {
                    JsonValue::Str(s) => {
                        out.push(s.clone());
                        assert(crate::text::views(out@) =~= crate::text::views(before).push(s@));
                    },
                    _ => {},
                }
                i = i + 1;
            }
            assert(items@.subrange(0, items@.len() as int) =~= items@);
        },
        _ => {
            assert(crate::text::views(out@) =~= Seq::<Seq<char>>::empty());
        },
    }
    out
}

} // verus!
