//! What the administration of the keys sends and receives.

use vstd::prelude::*;
use crate::auth::ApiKeyRecord;
use crate::text::{chars_of, text_of, text_of_str, trim_range, trimmed};

verus! {

/// The answer to the creation of a key: the one time the key itself is
/// shown.
#[derive(Clone, Debug)]
pub struct CreatedApiKeyResponse {
    pub id: String,
    pub name: String,
    pub key: String,
    pub created_at: i64,
}

/// A request to change a key: each part only where it is given.
#[derive(Clone, Debug)]
pub struct UpdateApiKeyRequest {
    pub name: Option<String>,
    pub enabled: Option<bool>,
}

/// The answer to the renewal of a key.
#[derive(Clone, Debug)]
pub struct RegeneratedKeyResponse {
    pub key: String,
}

/// Whether a name is blank: nothing but white space.
pub open spec fn is_blank(name: Seq<char>) -> bool {
    trimmed(name).len() == 0
}

/// The name that a request to change a key asks for: the one it gives,
/// unless that is blank.
pub open spec fn wanted_name(name: Option<Seq<char>>) -> Option<Seq<char>> {
    match name {
        Some(n) => if is_blank(n) {
            None
        } else {
            Some(n)
        },
        None => None,
    }
}

/// Whether `name` is blank. A key cannot be created under a blank name.
pub fn blank(name: &str) -> (r: bool)
    ensures
        r == is_blank(name@),
{
    let cs = chars_of(name);
    let (a, b) = trim_range(cs.as_slice(), 0, cs.len());
    assert(cs@.subrange(0, cs@.len() as int) =~= cs@);
    a == b
}

impl CreatedApiKeyResponse {
    /// The answer that shows a key that was just created.
    pub fn of(record: ApiKeyRecord) -> (r: CreatedApiKeyResponse)
        ensures
            r.id@ == record.id@,
            r.name@ == record.name@,
            r.key@ == record.key@,
            r.created_at == record.created_at,
    {
        CreatedApiKeyResponse {
            id: record.id,
            name: record.name,
            key: record.key,
            created_at: record.created_at,
        }
    }
}

impl UpdateApiKeyRequest {
    /// The name to give the key, where the request asks for one.
    pub fn new_name(&self) -> (r: Option<&str>)
        ensures
            text_of_str(r) == wanted_name(text_of(self.name)),
    {
        match &self.name {
            Some(n) => if blank(n.as_str()) {
                None
            } else {
                Some(n.as_str())
            },
            None => None,
        }
    }
}

impl RegeneratedKeyResponse {
    /// The answer that shows the new key.
    pub fn of(key: String) -> (r: RegeneratedKeyResponse)
        ensures
            r.key@ == key@,
    {
        RegeneratedKeyResponse { key }
    }
}

} // verus!
