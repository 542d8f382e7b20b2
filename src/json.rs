//! A semi-structured payload value: a tree of null, booleans, numbers,
//! strings, arrays and objects.

use vstd::prelude::*;
use crate::text::{str_eq, parse_u64, parse_u64_spec};
use vstd::utf8::encode_utf8;

verus! {

/// A number in a payload.
#[derive(Debug, PartialEq)]
pub enum JsonNumber {
    /// An integer in `0..=u64::MAX`.
    PosInt(u64),
    /// A negative integer that fits in 64 bits.
    NegInt(i64),
    /// Any other number, kept as the bit pattern of its IEEE-754 double.
    Float(u64),
}

/// A payload value. An object keeps its entries in order; lookups take the
/// first entry with the key asked for.
#[derive(Debug, PartialEq)]
pub enum JsonValue {
    Null,
    Bool(bool),
    Number(JsonNumber),
    Str(String),
    Array(Vec<JsonValue>),
    Object(Vec<(String, JsonValue)>),
}

/// The value of the first entry of `entries` whose key is `key`.
pub open spec fn field_of(entries: Seq<(String, JsonValue)>, key: Seq<char>) -> Option<JsonValue>
    decreases entries.len(),
{
    if entries.len() == 0 {
        None
    } else if entries[0].0@ == key {
        Some(entries[0].1)
    } else {
        field_of(entries.drop_first(), key)
    }
}

/// The index of the first entry of `entries` whose key is `key`.
pub fn find_field(entries: &Vec<(String, JsonValue)>, key: &str) -> (r: Option<usize>)
    ensures
        match r {
            Some(i) => i < entries@.len() && entries@[i as int].0@ == key@ && field_of(
                entries@,
                key@,
            ) == Some(entries@[i as int].1),
            None => field_of(entries@, key@) is None,
        },
{
    let mut i: usize = 0;
    proof {
        assert(entries@.subrange(0, entries@.len() as int) =~= entries@);
    }
    while i < entries.len()
        invariant
            0 <= i <= entries@.len(),
            field_of(entries@, key@) == field_of(
                entries@.subrange(i as int, entries@.len() as int),
                key@,
            ),
        decreases entries@.len() - i,
    {
        let ghost rest = entries@.subrange(i as int, entries@.len() as int);
        proof {
            assert(rest.drop_first() =~= entries@.subrange(i + 1, entries@.len() as int));
            assert(rest[0] == entries@[i as int]);
        }
        if str_eq(entries[i].0.as_str(), key) {
            return Some(i);
        }
        i = i + 1;
    }
    None
}

impl JsonNumber {
    /// The number as an unsigned 64-bit integer, if it is one.
    pub open spec fn spec_as_u64(self) -> Option<u64> {
        match self {
            JsonNumber::PosInt(n) => Some(n),
            JsonNumber::NegInt(n) => if n >= 0 {
                Some(n as u64)
            } else {
                None
            },
            JsonNumber::Float(_) => None,
        }
    }

    pub fn as_u64(&self) -> (r: Option<u64>)
        ensures
            r == self.spec_as_u64(),
    {
        match self {
            JsonNumber::PosInt(n) => Some(*n),
            JsonNumber::NegInt(n) => if *n >= 0 {
                Some(*n as u64)
            } else {
                None
            },
            JsonNumber::Float(_) => None,
        }
    }
}

impl JsonValue {
    /// The value under `key`, for an object; nothing for any other value.
    pub open spec fn spec_get(self, key: Seq<char>) -> Option<JsonValue> {
        match self {
            JsonValue::Object(entries) => field_of(entries@, key),
            _ => None,
        }
    }

    /// The value as an unsigned 64-bit integer: a number that is one, or a
    /// string that writes one in decimal.
    pub open spec fn spec_as_id(self) -> Option<u64> {
        match self {
            JsonValue::Number(n) => n.spec_as_u64(),
            JsonValue::Str(s) => parse_u64_spec(encode_utf8(s@)),
            _ => None,
        }
    }

    /// Looks up `key` in an object.
    pub fn get(&self, key: &str) -> (r: Option<&JsonValue>)
        ensures
            match r {
                Some(v) => self.spec_get(key@) == Some(*v),
                None => self.spec_get(key@) is None,
            },
    {
        match self {
            JsonValue::Object(entries) => match find_field(entries, key) {
                Some(i) => Some(&entries[i].1),
                None => None,
            },
            _ => None,
        }
    }

    /// Reads the value as an identifier: a number, or a numeric string.
    pub fn as_id(&self) -> (r: Option<u64>)
        ensures
            r == self.spec_as_id(),
    {
        match self {
            JsonValue::Number(n) => n.as_u64(),
            JsonValue::Str(s) => parse_u64(s.as_str()),
            _ => None,
        }
    }
}

} // verus!
