//! A JSON document as plain data.
//!
//! Parsing is done by `serde_json`; everything that reads a parsed document is
//! written against [`JsonValue`], which holds the same tree in the library's
//! own types.

use crate::text::{chars_of, same_chars};
use vstd::prelude::*;

verus! {

/// A JSON value.
///
/// A number is kept as the decimal text that `serde_json` prints for it. An
/// object is a list of members; where a key occurs more than once the last
/// member with that key is the one that counts.
#[derive(Debug, PartialEq, Eq)]
pub enum JsonValue {
    Null,
    Bool(bool),
    Number(String),
    String(String),
    Array(Vec<JsonValue>),
    Object(Vec<(String, JsonValue)>),
}

/// What a [`JsonValue`] holds, with strings as character sequences and
/// lists as sequences.
pub enum JsonContent {
    Null,
    Bool(bool),
    Number(Seq<char>),
    String(Seq<char>),
    Array(Seq<JsonContent>),
    Object(Seq<(Seq<char>, JsonContent)>),
}

impl JsonValue {
    /// What the value holds.
    pub open spec fn content(self) -> JsonContent
        decreases self,
    {
        match self {
            JsonValue::Null => JsonContent::Null,
            JsonValue::Bool(b) => JsonContent::Bool(b),
            JsonValue::Number(n) => JsonContent::Number(n@),
            JsonValue::String(s) => JsonContent::String(s@),
            JsonValue::Array(items) => JsonContent::Array(
                Seq::new(
                    items@.len(),
                    |i: int|
                        if 0 <= i < items@.len() {
                            items@[i].content()
                        } else {
                            JsonContent::Null
                        },
                ),
            ),
            JsonValue::Object(members) => JsonContent::Object(
                Seq::new(
                    members@.len(),
                    |i: int|
                        if 0 <= i < members@.len() {
                            (members@[i].0@, members@[i].1.content())
                        } else {
                            (Seq::empty(), JsonContent::Null)
                        },
                ),
            ),
        }
    }
}

impl Clone for JsonValue {
    fn clone(&self) -> (r: Self)
        ensures
            r.content() == self.content(),
        decreases *self,
    {
        match self {
            JsonValue::Null => JsonValue::Null,
            JsonValue::Bool(b) => JsonValue::Bool(*b),
            JsonValue::Number(n) => JsonValue::Number(n.clone()),
            JsonValue::String(s) => JsonValue::String(s.clone()),
            JsonValue::Array(items) => {
                let mut out: Vec<JsonValue> = Vec::new();
                let mut i: usize = 0;
                while i < items.len()
                    invariant
                        i <= items.len(),
                        *self == JsonValue::Array(*items),
                        out@.len() == i,
                        forall|k: int| 0 <= k < i ==> (#[trigger] out@[k]).content() == items@[k].content(),
                    decreases items.len() - i,
                {
                    assert(self->Array_0 == *items);
                    out.push(items[i].clone());
                    i += 1;
                }
                let r = JsonValue::Array(out);
                assert(r.content()->Array_0 =~= self.content()->Array_0);
                r
            },
            JsonValue::Object(members) => {
                let mut out: Vec<(String, JsonValue)> = Vec::new();
                let mut i: usize = 0;
                while i < members.len()
                    invariant
                        i <= members.len(),
                        *self == JsonValue::Object(*members),
                        out@.len() == i,
                        forall|k: int|
                            0 <= k < i ==> (#[trigger] out@[k]).0@ == members@[k].0@ && out@[k].1.content()
                                == members@[k].1.content(),
                    decreases members.len() - i,
                {
                    assert(self->Object_0 == *members);
                    out.push((members[i].0.clone(), members[i].1.clone()));
                    i += 1;
                }
                let r = JsonValue::Object(out);
                assert(r.content()->Object_0 =~= self.content()->Object_0);
                r
            },
        }
    }
}

/// The value type of `serde_json`. It is carried from the parser to the
/// copy into a [`JsonValue`] and back; nothing else looks inside.
#[verifier::external_type_specification]
#[verifier::external_body]
pub struct ExSerdeJsonValue(serde_json::Value);

/// The error of `serde_json`; nothing is read from it.
#[verifier::external_type_specification]
#[verifier::external_body]
pub struct ExSerdeJsonError(serde_json::Error);

/// The tree that a `serde_json::Value` holds, as a [`JsonValue`].
pub uninterp spec fn json_model(v: serde_json::Value) -> JsonValue;

/// The document that `serde_json::from_str` reads from `text`, or `None` where
/// it reports an error.
pub uninterp spec fn json_document(text: Seq<char>) -> Option<JsonValue>;

/// Trusted: calls `serde_json::from_str` for a `serde_json::Value`. The
/// outcome depends on the text alone; it is named, not described.
#[verifier::external_body]
fn serde_from_str(text: &str) -> (r: Result<serde_json::Value, serde_json::Error>)
    ensures
        match r {
            Ok(v) => json_document(text@) == Some(json_model(v)),
            Err(_) => json_document(text@) is None,
        },
{
    serde_json::from_str::<serde_json::Value>(text)
}

/// Trusted: copies a `serde_json::Value` into a [`JsonValue`], variant by
/// variant; a number becomes the text of `Number::to_string`, an object its
/// members in the order of `Map::iter`.
#[verifier::external_body]
fn model_of(v: &serde_json::Value) -> (r: JsonValue)
    ensures
        r == json_model(*v),
{
    match v {
        serde_json::Value::Null => JsonValue::Null,
        serde_json::Value::Bool(b) => JsonValue::Bool(*b),
        serde_json::Value::Number(n) => JsonValue::Number(n.to_string()),
        serde_json::Value::String(s) => JsonValue::String(s.clone()),
        serde_json::Value::Array(a) => JsonValue::Array(a.iter().map(model_of).collect()),
        serde_json::Value::Object(m) => JsonValue::Object(
            m.iter().map(|(k, x)| (k.clone(), model_of(x))).collect(),
        ),
    }
}

/// The document that `serde_json::from_slice` reads from `bytes`, or `None`
/// where it reports an error.
pub uninterp spec fn json_bytes_document(bytes: Seq<u8>) -> Option<JsonValue>;

/// The `serde_json::Value` that is built from a [`JsonValue`] to write it
/// out, or `None` where the value holds a number whose text
/// `Number::from_str` does not read.
pub uninterp spec fn serde_form(v: JsonValue) -> Option<serde_json::Value>;

/// The text that `serde_json::to_string` writes for a value, or `None` where
/// it reports an error.
pub uninterp spec fn serde_text(v: serde_json::Value) -> Option<Seq<char>>;

/// The JSON text of a value; `None` for a value that cannot be written.
pub open spec fn json_text(v: JsonValue) -> Option<Seq<char>> {
    match serde_form(v) {
        Some(value) => serde_text(value),
        None => None,
    }
}

/// Trusted: calls `serde_json::from_slice` for a `serde_json::Value`. The
/// outcome depends on the bytes alone; it is named, not described.
#[verifier::external_body]
fn serde_from_slice(bytes: &[u8]) -> (r: Result<serde_json::Value, serde_json::Error>)
    ensures
        match r {
            Ok(v) => json_bytes_document(bytes@) == Some(json_model(v)),
            Err(_) => json_bytes_document(bytes@) is None,
        },
{
    serde_json::from_slice::<serde_json::Value>(bytes)
}

/// Trusted: builds a `serde_json::Value` from a [`JsonValue`], variant by
/// variant; the text of a number is read back with `Number::from_str`, whose
/// error is handed on; the members of an object are collected into a `Map`.
#[verifier::external_body]
fn serde_of(v: &JsonValue) -> (r: Result<serde_json::Value, serde_json::Error>)
    ensures
        match r {
            Ok(value) => serde_form(*v) == Some(value),
            Err(_) => serde_form(*v) is None,
        },
{
    Ok(match v {
        JsonValue::Null => serde_json::Value::Null,
        JsonValue::Bool(b) => serde_json::Value::Bool(*b),
        JsonValue::Number(n) => serde_json::Value::Number(n.parse()?),
        JsonValue::String(s) => serde_json::Value::String(s.clone()),
        JsonValue::Array(a) => serde_json::Value::Array(
            a.iter().map(serde_of).collect::<Result<_, _>>()?,
        ),
        JsonValue::Object(m) => serde_json::Value::Object(
            m.iter().map(|(k, x)| Ok((k.clone(), serde_of(x)?))).collect::<Result<_, serde_json::Error>>()?,
        ),
    })
}

/// Trusted: calls `serde_json::to_string`. The outcome depends on the value
/// alone; it is named, not described.
#[verifier::external_body]
fn serde_to_string(v: &serde_json::Value) -> (r: Result<String, serde_json::Error>)
    ensures
        match r {
            Ok(s) => serde_text(*v) == Some(s@),
            Err(_) => serde_text(*v) is None,
        },
{
    serde_json::to_string(v)
}

/// Parses a JSON document given as bytes.
pub fn parse_json_bytes(bytes: &[u8]) -> (r: Option<JsonValue>)
    ensures
        r == json_bytes_document(bytes@),
{
    match serde_from_slice(bytes) {
        Ok(v) => Some(model_of(&v)),
        Err(_) => None,
    }
}

/// Writes a value as JSON text. A value with a number that is no JSON
/// number cannot be written.
pub fn to_json_text(v: &JsonValue) -> (r: Option<String>)
    ensures
        match r {
            Some(s) => json_text(*v) == Some(s@),
            None => json_text(*v) is None,
        },
{
    match serde_of(v) {
        Ok(value) => match serde_to_string(&value) {
            Ok(s) => Some(s),
            Err(_) => None,
        },
        Err(_) => None,
    }
}

/// Parses a JSON document.
pub fn parse_json(text: &str) -> (r: Option<JsonValue>)
    ensures
        r == json_document(text@),
{
    match serde_from_str(text) {
        Ok(v) => Some(model_of(&v)),
        Err(_) => None,
    }
}

/// The value of the last of the first `n` members whose key is `key`.
pub open spec fn lookup(members: Seq<(String, JsonValue)>, key: Seq<char>, n: int) -> Option<
    JsonValue,
>
    decreases n,
{
    if n <= 0 || n > members.len() {
        None
    } else if members[n - 1].0@ == key {
        Some(members[n - 1].1)
    } else {
        lookup(members, key, n - 1)
    }
}

/// Index of the member that counts for `key`: the last one with that key.
pub fn find_member(members: &Vec<(String, JsonValue)>, key: &str) -> (r: Option<usize>)
    ensures
        match r {
            Some(i) => i < members@.len() && lookup(members@, key@, members@.len() as int) == Some(
                members@[i as int].1,
            ),
            None => lookup(members@, key@, members@.len() as int) is None,
        },
{
    let wanted = chars_of(key);
    let mut i: usize = members.len();
    while i > 0
        invariant
            i <= members.len(),
            wanted@ == key@,
            lookup(members@, key@, members@.len() as int) == lookup(members@, key@, i as int),
        decreases i,
    {
        let name = chars_of(members[i - 1].0.as_str());
        if same_chars(&name, &wanted) {
            return Some(i - 1);
        }
        i -= 1;
    }
    None
}

impl JsonValue {
    /// The member `key` of an object; `None` for a missing key and for any
    /// value that is not an object.
    pub open spec fn member(self, key: Seq<char>) -> Option<JsonValue> {
        match self {
            JsonValue::Object(members) => lookup(members@, key, members@.len() as int),
            _ => None,
        }
    }

    /// The characters of a string value.
    pub open spec fn text(self) -> Option<Seq<char>> {
        match self {
            JsonValue::String(s) => Some(s@),
            _ => None,
        }
    }

    /// The truth value of a boolean.
    pub open spec fn truth(self) -> Option<bool> {
        match self {
            JsonValue::Bool(b) => Some(b),
            _ => None,
        }
    }

    /// The elements of an array.
    pub open spec fn elements(self) -> Option<Seq<JsonValue>> {
        match self {
            JsonValue::Array(a) => Some(a@),
            _ => None,
        }
    }

    /// The string member `key` of an object.
    pub open spec fn text_member(self, key: Seq<char>) -> Option<Seq<char>> {
        match self.member(key) {
            Some(v) => v.text(),
            None => None,
        }
    }

    /// The boolean member `key` of an object.
    pub open spec fn truth_member(self, key: Seq<char>) -> Option<bool> {
        match self.member(key) {
            Some(v) => v.truth(),
            None => None,
        }
    }

    /// Looks up a member of an object by its key.
    pub fn get(&self, key: &str) -> (r: Option<&JsonValue>)
        ensures
            match r {
                Some(v) => self.member(key@) == Some(*v),
                None => self.member(key@) is None,
            },
    {
        match self {
            JsonValue::Object(members) => match find_member(members, key) {
                Some(i) => Some(&members[i].1),
                None => None,
            },
            _ => None,
        }
    }

    /// The text of a string value.
    pub fn as_str(&self) -> (r: Option<&str>)
        ensures
            match r {
                Some(s) => self.text() == Some(s@),
                None => self.text() is None,
            },
    {
        match self {
            JsonValue::String(s) => Some(s.as_str()),
            _ => None,
        }
    }

    /// The truth value of a boolean.
    pub fn as_bool(&self) -> (r: Option<bool>)
        ensures
            r == self.truth(),
    {
        match self {
            JsonValue::Bool(b) => Some(*b),
            _ => None,
        }
    }

    /// The elements of an array.
    pub fn as_array(&self) -> (r: Option<&Vec<JsonValue>>)
        ensures
            match r {
                Some(a) => self.elements() == Some(a@),
                None => self.elements() is None,
            },
    {
        match self {
            JsonValue::Array(a) => Some(a),
            _ => None,
        }
    }
}

} // verus!
