//! JSON documents as plain data.
//!
//! Parsing is left to `serde_json`; what it returns is carried over, node for
//! node, into [`Json`], and everything that reads a document works on that.

use vstd::prelude::*;
use serde_json::Value;
use crate::text::same_text;

verus! {

/// `serde_json::Value`, the document as the parser returns it. Nothing of
/// it is read here but by [`lift`].
#[verifier::external_type_specification]
#[verifier::external_body]
pub struct ExValue(Value);

/// A JSON document.
pub enum Json {
    Null,
    Bool(bool),
    /// A number, with its value where that is an integer from 0 to 2^64 - 1.
    Number(Option<u64>),
    Text(String),
    List(Vec<Json>),
    /// The members of an object, each with its name.
    Object(Vec<(String, Json)>),
}

/// The document that `serde_json::from_str` reads from `text`, if it reads
/// one.
pub uninterp spec fn json_of_text(text: Seq<char>) -> Option<Json>;

/// The document that `serde_json::from_slice` reads from `bytes`, if it
/// reads one.
pub uninterp spec fn json_of_bytes(bytes: Seq<u8>) -> Option<Json>;

/// The first member called `key` among `members`.
pub open spec fn lookup(members: Seq<(String, Json)>, key: Seq<char>) -> Option<Json>
    decreases members.len(),
{
    if members.len() == 0 {
        None
    } else if members[0].0@ == key {
        Some(members[0].1)
    } else {
        lookup(members.drop_first(), key)
    }
}

impl Json {
    /// The member called `key` of an object; nothing of any other document.
    pub open spec fn member(self, key: Seq<char>) -> Option<Json> {
        match self {
            Json::Object(members) => lookup(members@, key),
            _ => None,
        }
    }

    /// The value of a number that is an integer from 0 to 2^64 - 1.
    pub open spec fn count(self) -> Option<u64> {
        match self {
            Json::Number(n) => n,
            _ => None,
        }
    }

    /// The characters of a string.
    pub open spec fn text(self) -> Option<Seq<char>> {
        match self {
            Json::Text(s) => Some(s@),
            _ => None,
        }
    }

    /// The member called `key`, where this is an object that has one.
    pub fn get(&self, key: &str) -> (r: Option<&Json>)
        ensures
            match r {
                Some(v) => self.member(key@) == Some(*v),
                None => self.member(key@) is None,
            },
    {
        match self {
            Json::Object(members) => {
                let mut i: usize = 0;
                assert(members@.skip(0) =~= members@);
                while i < members.len()
                    invariant
                        i <= members@.len(),
                        self.member(key@) == lookup(members@.skip(i as int), key@),
                    decreases members@.len() - i,
                {
                    if same_text(members[i].0.as_str(), key) {
                        return Some(&members[i].1);
                    }
                    assert(members@.skip(i as int).drop_first() =~= members@.skip(i + 1));
                    i += 1;
                }
                None
            },
            _ => None,
        }
    }

    /// The value of a number that is an integer from 0 to 2^64 - 1.
    pub fn as_u64(&self) -> (r: Option<u64>)
        ensures
            r == self.count(),
    {
        match self {
            Json::Number(n) => *n,
            _ => None,
        }
    }

    /// The string, where this is one.
    pub fn as_str(&self) -> (r: Option<&str>)
        ensures
            match r {
                Some(s) => self.text() == Some(s@),
                None => self.text() is None,
            },
    {
        match self {
            Json::Text(s) => Some(s.as_str()),
            _ => None,
        }
    }
}

/// Carries a `serde_json::Value` over into a [`Json`], variant by variant.
/// A number keeps what `Number::as_u64` gives for it.
#[verifier::external_body]
fn lift(v: &Value) -> Json {
    match v {
        Value::Null => Json::Null,
        Value::Bool(b) => Json::Bool(*b),
        Value::Number(n) => Json::Number(n.as_u64()),
        Value::String(s) => Json::Text(s.clone()),
        Value::Array(a) => Json::List(a.iter().map(lift).collect()),
        Value::Object(m) => Json::Object(m.iter().map(|(k, x)| (k.clone(), lift(x))).collect()),
    }
}

/// Calls `serde_json::from_str` for a `serde_json::Value`. Whether a
/// document comes back, and which, depends on `text` alone.
#[verifier::external_body]
pub(crate) fn parse_text(text: &str) -> (r: Option<Json>)
    ensures
        r == json_of_text(text@),
{
    serde_json::from_str::<Value>(text).ok().map(|v| lift(&v))
}

/// Calls `serde_json::from_slice` for a `serde_json::Value`. Whether a
/// document comes back, and which, depends on `bytes` alone.
#[verifier::external_body]
pub(crate) fn parse_bytes(bytes: &[u8]) -> (r: Option<Json>)
    ensures
        r == json_of_bytes(bytes@),
{
    serde_json::from_slice::<Value>(bytes).ok().map(|v| lift(&v))
}

} // verus!
