//! A plain model of a JSON document, and the decoder that produces it.
//!
//! Decoding text is the work of `serde_json`. What it returns is copied, node
//! for node, into [`Json`], a type Verus can read; every lookup and every
//! typed accessor on that type is verified code.

use vstd::prelude::*;

verus! {

/// A JSON number, held by the two readings callers ask for.
#[derive(Debug, Clone)]
pub struct Number {
    /// The value as an unsigned integer, for a non-negative integer literal
    /// that fits 64 bits.
    pub unsigned: Option<u64>,
    /// The IEEE-754 bit pattern of the value as a double.
    pub real_bits: Option<u64>,
}

/// A JSON value.
#[derive(Debug)]
pub enum Json {
    Null,
    Bool(bool),
    Number(Number),
    Str(String),
    Array(Vec<Json>),
    /// The members of an object, each a key and its value.
    Object(Vec<(String, Json)>),
}

/// The value of the first member at or after `from` whose key is `key`.
pub open spec fn member_from(members: Seq<(String, Json)>, key: Seq<char>, from: int) -> Option<
    Json,
>
    decreases members.len() - from,
{
    if from < 0 || from >= members.len() {
        None
    } else if members[from].0@ == key {
        Some(members[from].1)
    } else {
        member_from(members, key, from + 1)
    }
}

impl Json {
    /// The member `key` of an object; `None` for a missing key and for any
    /// value that is not an object.
    pub open spec fn member(self, key: Seq<char>) -> Option<Json> {
        match self {
            Json::Object(members) => member_from(members@, key, 0),
            _ => None,
        }
    }

    /// The text of a string value.
    pub open spec fn text(self) -> Option<Seq<char>> {
        match self {
            Json::Str(s) => Some(s@),
            _ => None,
        }
    }

    /// The value of a number that is an unsigned 64-bit integer.
    pub open spec fn unsigned(self) -> Option<u64> {
        match self {
            Json::Number(n) => n.unsigned,
            _ => None,
        }
    }

    /// The bit pattern of a number read as a double.
    pub open spec fn real_bits(self) -> Option<u64> {
        match self {
            Json::Number(n) => n.real_bits,
            _ => None,
        }
    }

    /// The value of a boolean.
    pub open spec fn flag(self) -> Option<bool> {
        match self {
            Json::Bool(b) => Some(b),
            _ => None,
        }
    }

    /// The elements of an array.
    pub open spec fn items(self) -> Option<Seq<Json>> {
        match self {
            Json::Array(items) => Some(items@),
            _ => None,
        }
    }

    /// Looks up the member `key` of an object.
    pub fn get(&self, key: &str) -> (r: Option<&Json>)
        ensures
            match r {
                Some(v) => self.member(key@) == Some(*v),
                None => self.member(key@) is None,
            },
    {
        match self {
            Json::Object(members) => {
                let wanted = String::from_str(key);
                let mut i: usize = 0;
                while i < members.len()
                    invariant
                        0 <= i <= members.len(),
                        wanted@ == key@,
                        self.member(key@) == member_from(members@, key@, i as int),
                    decreases members.len() - i,
                {
                    if members[i].0 == wanted {
                        return Some(&members[i].1);
                    }
                    i += 1;
                }
                None
            },
            _ => None,
        }
    }

    /// The text of a string value.
    pub fn as_str(&self) -> (r: Option<&str>)
        ensures
            match r {
                Some(t) => self.text() == Some(t@),
                None => self.text() is None,
            },
    {
        match self {
            Json::Str(s) => Some(s.as_str()),
            _ => None,
        }
    }

    /// The value of a number that is an unsigned 64-bit integer.
    pub fn as_u64(&self) -> (r: Option<u64>)
        ensures
            r == self.unsigned(),
    {
        match self {
            Json::Number(n) => n.unsigned,
            _ => None,
        }
    }

    /// The bit pattern of a number read as a double.
    pub fn as_real_bits(&self) -> (r: Option<u64>)
        ensures
            r == self.real_bits(),
    {
        match self {
            Json::Number(n) => n.real_bits,
            _ => None,
        }
    }

    /// The value of a boolean.
    pub fn as_bool(&self) -> (r: Option<bool>)
        ensures
            r == self.flag(),
    {
        match self {
            Json::Bool(b) => Some(*b),
            _ => None,
        }
    }

    /// The elements of an array.
    pub fn as_array(&self) -> (r: Option<&Vec<Json>>)
        ensures
            match r {
                Some(v) => self.items() == Some(v@),
                None => self.items() is None,
            },
    {
        match self {
            Json::Array(items) => Some(items),
            _ => None,
        }
    }
}

/// The text of the string member `key`; `None` where the member is missing
/// or is not a string.
pub open spec fn text_member(value: Json, key: Seq<char>) -> Option<Seq<char>> {
    match value.member(key) {
        Some(v) => v.text(),
        None => None,
    }
}

/// The value of the unsigned integer member `key`.
pub open spec fn unsigned_member(value: Json, key: Seq<char>) -> Option<u64> {
    match value.member(key) {
        Some(v) => v.unsigned(),
        None => None,
    }
}

/// The bit pattern of the number member `key`, read as a double.
pub open spec fn real_member(value: Json, key: Seq<char>) -> Option<u64> {
    match value.member(key) {
        Some(v) => v.real_bits(),
        None => None,
    }
}

/// The value of the boolean member `key`.
pub open spec fn flag_member(value: Json, key: Seq<char>) -> Option<bool> {
    match value.member(key) {
        Some(v) => v.flag(),
        None => None,
    }
}

/// The text of the string member `key`.
pub fn text_at<'a>(value: &'a Json, key: &str) -> (r: Option<&'a str>)
    ensures
        match r {
            Some(t) => text_member(*value, key@) == Some(t@),
            None => text_member(*value, key@) is None,
        },
{
    match value.get(key) {
        Some(v) => v.as_str(),
        None => None,
    }
}

/// The value of the unsigned integer member `key`.
pub fn unsigned_at(value: &Json, key: &str) -> (r: Option<u64>)
    ensures
        r == unsigned_member(*value, key@),
{
    match value.get(key) {
        Some(v) => v.as_u64(),
        None => None,
    }
}

/// The bit pattern of the number member `key`, read as a double.
pub fn real_at(value: &Json, key: &str) -> (r: Option<u64>)
    ensures
        r == real_member(*value, key@),
{
    match value.get(key) {
        Some(v) => v.as_real_bits(),
        None => None,
    }
}

/// The value of the boolean member `key`.
pub fn flag_at(value: &Json, key: &str) -> (r: Option<bool>)
    ensures
        r == flag_member(*value, key@),
{
    match value.get(key) {
        Some(v) => v.as_bool(),
        None => None,
    }
}

/// What `serde_json` makes of `text`: the document it decodes to, or `None`
/// where it reports an error.
pub uninterp spec fn json_of(text: Seq<char>) -> Option<Json>;

/// `serde_json::Value`, the decoder's own document type. Only [`lift`] reads
/// one.
#[verifier::external_type_specification]
#[verifier::external_body]
pub struct ExValue(serde_json::Value);

/// Copies a `serde_json::Value` into a [`Json`], variant for variant. A
/// number keeps what `Number::as_u64` and `Number::as_f64` return, the
/// latter as its bit pattern; an object keeps its members in the order its
/// map yields them.
#[verifier::external_body]
fn lift(value: &serde_json::Value) -> Json {
    match value {
        serde_json::Value::Null => Json::Null,
        serde_json::Value::Bool(b) => Json::Bool(*b),
        serde_json::Value::Number(n) => Json::Number(
            Number { unsigned: n.as_u64(), real_bits: n.as_f64().map(|x| x.to_bits()) },
        ),
        serde_json::Value::String(s) => Json::Str(s.clone()),
        serde_json::Value::Array(a) => Json::Array(a.iter().map(lift).collect()),
        serde_json::Value::Object(o) => Json::Object(
            o.iter().map(|(k, v)| (k.clone(), lift(v))).collect(),
        ),
    }
}

/// `serde_json::from_str` at type `Value`: decodes one JSON document from
/// `text`. The result depends on `text` alone, and is `None` exactly where
/// the decoder returns an error.
#[verifier::external_body]
pub(crate) fn decode(text: &str) -> (r: Option<Json>)
    ensures
        r == json_of(text@),
{
    match serde_json::from_str::<serde_json::Value>(text) {
        Ok(value) => Some(lift(&value)),
        Err(_) => None,
    }
}

} // verus!
