//! The credential resolver: which requests need a key, whose key a request
//! carries, and whether it may go on.

use vstd::prelude::*;
use vstd::slice::slice_subrange;
use crate::text::{
    after_last, begins_with, chars_of, last_part, same, same_text, starts_with, string_of,
    text_of, text_of_str,
};

verus! {

/// The status of the answer to a request that is turned away.
pub const UNAUTHORIZED: u16 = 401;

/// How strictly keys are asked for.
#[derive(Clone, Copy, Debug, PartialEq, Eq)]
pub enum ProxyAuthMode {
    /// No request needs a key.
    Off,
    /// Every request needs a key but the health check.
    AllExceptHealth,
    /// Every request needs a key.
    Enforced,
}

/// The key that a request was attributed to.
#[derive(Clone, Debug)]
pub struct AuthenticatedKey {
    pub key: String,
    pub key_id: String,
    pub key_name: String,
}

/// What an [`AuthenticatedKey`] holds, as text.
pub struct AuthenticatedKeyView {
    pub key: Seq<char>,
    pub key_id: Seq<char>,
    pub key_name: Seq<char>,
}

impl View for AuthenticatedKey {
    type V = AuthenticatedKeyView;

    open spec fn view(&self) -> AuthenticatedKeyView {
        AuthenticatedKeyView { key: self.key@, key_id: self.key_id@, key_name: self.key_name@ }
    }
}

/// A key as the key store holds it.
#[derive(Clone, Debug)]
pub struct ApiKeyRecord {
    pub id: String,
    pub name: String,
    pub key: String,
    pub enabled: bool,
    pub created_at: i64,
}

/// What the key store answered when asked for a key.
#[derive(Clone, Debug)]
pub enum StoreLookup {
    /// The store holds the key.
    Found(ApiKeyRecord),
    /// The store does not hold the key.
    Missing,
    /// The store could not be asked.
    Unavailable,
}

/// What becomes of a request.
#[derive(Clone, Debug)]
pub enum AuthOutcome {
    /// The request goes on, with the key it was attributed to, if any.
    Proceed { identity: Option<AuthenticatedKey> },
    /// The request is turned away with status [`UNAUTHORIZED`].
    Reject,
}

/// What an [`AuthOutcome`] holds, with the identity as text.
pub enum AuthOutcomeView {
    Proceed { identity: Option<AuthenticatedKeyView> },
    Reject,
}

impl View for AuthOutcome {
    type V = AuthOutcomeView;

    open spec fn view(&self) -> AuthOutcomeView {
        match *self {
            AuthOutcome::Proceed { identity } => AuthOutcomeView::Proceed {
                identity: identity_of(identity),
            },
            AuthOutcome::Reject => AuthOutcomeView::Reject,
        }
    }
}

/// Whether the part of a path behind its last dot names a static file.
pub open spec fn is_static_extension(ext: Seq<char>) -> bool {
    ||| ext == "css"@
    ||| ext == "js"@
    ||| ext == "png"@
    ||| ext == "svg"@
    ||| ext == "jpg"@
    ||| ext == "jpeg"@
    ||| ext == "webp"@
    ||| ext == "ico"@
}

/// Whether a path names a static asset: the root, the index page, the
/// favicon, anything under `/assets/`, and any path whose part behind the
/// last dot (the whole path where it has no dot) is a static extension.
pub open spec fn static_asset(path: Seq<char>) -> bool {
    ||| path == "/"@
    ||| path == "/index.html"@
    ||| path == "/favicon.ico"@
    ||| starts_with(path, "/assets/"@)
    ||| is_static_extension(after_last(path, '.'))
}

/// Whether a request needs no key whatever the mode: a preflight request,
/// a static asset, and the paths of the OAuth callback.
pub open spec fn is_exempt(method: Seq<char>, path: Seq<char>) -> bool {
    ||| method == "OPTIONS"@
    ||| static_asset(path)
    ||| path == "/oauth-callback"@
    ||| starts_with(path, "/api/oauth/"@)
}

/// The value of an `Authorization` header without the `Bearer ` at its
/// start, where it starts so.
pub open spec fn without_bearer(value: Seq<char>) -> Seq<char> {
    if starts_with(value, "Bearer "@) {
        value.skip("Bearer "@.len() as int)
    } else {
        value
    }
}

/// The key that a request presents: the one in its `Authorization` header,
/// else the one in its API-key header.
pub open spec fn presented(authorization: Option<Seq<char>>, api_key: Option<Seq<char>>) -> Option<
    Seq<char>,
> {
    match authorization {
        Some(a) => Some(without_bearer(a)),
        None => api_key,
    }
}

/// The identity that the legacy key gives.
pub open spec fn legacy_identity(key: Seq<char>) -> AuthenticatedKeyView {
    AuthenticatedKeyView { key, key_id: "legacy"@, key_name: "Legacy Config Key"@ }
}

/// The record that the store holds for a key and that is enabled.
pub open spec fn enabled_record(lookup: StoreLookup) -> Option<ApiKeyRecord> {
    match lookup {
        StoreLookup::Found(record) => if record.enabled {
            Some(record)
        } else {
            None
        },
        StoreLookup::Missing => None,
        StoreLookup::Unavailable => None,
    }
}

/// Whether a key matches the legacy key. An empty legacy key says that
/// none is configured, and nothing matches it, an empty key neither.
pub open spec fn matches_legacy(key: Seq<char>, legacy: Seq<char>) -> bool {
    legacy.len() > 0 && key == legacy
}

/// Whom a presented key is attributed to. A record of the store that is
/// enabled gives its own id and name. Otherwise (the store holds no such
/// key, holds it disabled, or could not be asked) the key is held against
/// the legacy key, and gives the legacy identity where it matches.
pub open spec fn resolved(key: Seq<char>, lookup: StoreLookup, legacy: Seq<char>) -> Option<
    AuthenticatedKeyView,
> {
    match enabled_record(lookup) {
        Some(record) => Some(
            AuthenticatedKeyView { key, key_id: record.id@, key_name: record.name@ },
        ),
        None => if matches_legacy(key, legacy) {
            Some(legacy_identity(key))
        } else {
            None
        },
    }
}

/// Whom a request is attributed to: nobody where it presents no key.
pub open spec fn attributed(key: Option<Seq<char>>, lookup: StoreLookup, legacy: Seq<char>) -> Option<
    AuthenticatedKeyView,
> {
    match key {
        Some(k) => resolved(k, lookup, legacy),
        None => None,
    }
}

/// Whether a mode lets a path through without a key.
pub open spec fn is_open(mode: ProxyAuthMode, path: Seq<char>) -> bool {
    mode == ProxyAuthMode::Off || (mode == ProxyAuthMode::AllExceptHealth && path == "/healthz"@)
}

/// Whether a request that is not exempt goes on: the mode lets its path
/// through, or it was attributed to a key.
pub open spec fn is_admitted(
    mode: ProxyAuthMode,
    path: Seq<char>,
    key: Option<Seq<char>>,
    lookup: StoreLookup,
    legacy: Seq<char>,
) -> bool {
    is_open(mode, path) || attributed(key, lookup, legacy) is Some
}

/// What becomes of a request that is not exempt: it goes on with the
/// identity it was attributed to where it is admitted, and is turned away
/// where it is not.
pub open spec fn authorization_of(
    mode: ProxyAuthMode,
    path: Seq<char>,
    key: Option<Seq<char>>,
    lookup: StoreLookup,
    legacy: Seq<char>,
) -> AuthOutcomeView {
    if is_admitted(mode, path, key, lookup, legacy) {
        AuthOutcomeView::Proceed { identity: attributed(key, lookup, legacy) }
    } else {
        AuthOutcomeView::Reject
    }
}

/// What becomes of a request: an exempt one goes on attributed to nobody,
/// any other as [`authorization_of`] says.
pub open spec fn outcome_of(
    mode: ProxyAuthMode,
    method: Seq<char>,
    path: Seq<char>,
    key: Option<Seq<char>>,
    lookup: StoreLookup,
    legacy: Seq<char>,
) -> AuthOutcomeView {
    if is_exempt(method, path) {
        AuthOutcomeView::Proceed { identity: None }
    } else {
        authorization_of(mode, path, key, lookup, legacy)
    }
}

/// What an identity that may be missing holds.
pub open spec fn identity_of(identity: Option<AuthenticatedKey>) -> Option<AuthenticatedKeyView> {
    match identity {
        Some(k) => Some(k@),
        None => None,
    }
}

/// A key of the store that is enabled gives the identity of its record:
/// the id is the record's, also where the key is the legacy key as well,
/// so it is not `legacy` unless the record itself is called so.
pub proof fn lemma_enabled_record_gives_its_id(key: Seq<char>, record: ApiKeyRecord, legacy: Seq<char>)
    requires
        record.enabled,
    ensures
        resolved(key, StoreLookup::Found(record), legacy) is Some,
        resolved(key, StoreLookup::Found(record), legacy)->0.key_id == record.id@,
        resolved(key, StoreLookup::Found(record), legacy)->0.key_name == record.name@,
        resolved(key, StoreLookup::Found(record), legacy)->0.key == key,
        record.id@ != "legacy"@ ==> resolved(key, StoreLookup::Found(record), legacy)->0.key_id
            != "legacy"@,
{
}

/// A key that only the legacy key matches gives the id `legacy`.
pub proof fn lemma_legacy_match_gives_legacy_id(key: Seq<char>, lookup: StoreLookup, legacy: Seq<char>)
    requires
        matches_legacy(key, legacy),
        enabled_record(lookup) is None,
    ensures
        resolved(key, lookup, legacy) is Some,
        resolved(key, lookup, legacy)->0.key_id == "legacy"@,
        resolved(key, lookup, legacy)->0.key == key,
{
}

/// A key that matches neither tier is attributed to nobody.
pub proof fn lemma_unmatched_key_gives_nobody(key: Seq<char>, lookup: StoreLookup, legacy: Seq<char>)
    requires
        !matches_legacy(key, legacy),
        enabled_record(lookup) is None,
    ensures
        resolved(key, lookup, legacy) is None,
{
}

/// Where no legacy key is configured, only an enabled record of the store
/// gives an identity: no key matches the legacy tier, an empty key
/// neither.
pub proof fn lemma_no_legacy_key_matches_nothing(key: Seq<char>, lookup: StoreLookup)
    ensures
        !matches_legacy(key, Seq::<char>::empty()),
        resolved(key, lookup, Seq::<char>::empty()) is Some <==> enabled_record(lookup) is Some,
{
}

/// With the mode off, a request that presents no key goes on, attributed
/// to nobody.
pub proof fn lemma_off_without_key_goes_on(
    method: Seq<char>,
    path: Seq<char>,
    lookup: StoreLookup,
    legacy: Seq<char>,
)
    ensures
        outcome_of(ProxyAuthMode::Off, method, path, None, lookup, legacy) == (
        AuthOutcomeView::Proceed { identity: None }),
{
}

/// With the mode off every request goes on, whatever it presents.
pub proof fn lemma_off_admits_all(
    method: Seq<char>,
    path: Seq<char>,
    key: Option<Seq<char>>,
    lookup: StoreLookup,
    legacy: Seq<char>,
)
    ensures
        outcome_of(ProxyAuthMode::Off, method, path, key, lookup, legacy) is Proceed,
{
}

/// A request carries at most one identity, and only where it presents a
/// key: the key of the identity is the key presented.
pub proof fn lemma_identity_carries_presented_key(
    mode: ProxyAuthMode,
    method: Seq<char>,
    path: Seq<char>,
    key: Option<Seq<char>>,
    lookup: StoreLookup,
    legacy: Seq<char>,
)
    ensures
        outcome_of(mode, method, path, key, lookup, legacy) matches AuthOutcomeView::Proceed {
            identity: Some(k),
        } ==> key == Some(k.key),
{
}

/// Under the strict mode a request goes on only with an identity.
pub proof fn lemma_enforced_needs_identity(
    path: Seq<char>,
    key: Option<Seq<char>>,
    lookup: StoreLookup,
    legacy: Seq<char>,
)
    ensures
        is_admitted(ProxyAuthMode::Enforced, path, key, lookup, legacy) <==> attributed(
            key,
            lookup,
            legacy,
        ) is Some,
{
}

/// Whether `path` names a static asset.
pub fn is_static_asset(path: &str) -> (r: bool)
    ensures
        r == static_asset(path@),
{
    if same_text(path, "/") || same_text(path, "/index.html") || same_text(path, "/favicon.ico") {
        return true;
    }
    let cs = chars_of(path);
    let assets = chars_of("/assets/");
    if begins_with(cs.as_slice(), assets.as_slice()) {
        return true;
    }
    let from = last_part(cs.as_slice(), '.');
    let ext = slice_subrange(cs.as_slice(), from, cs.len());
    has_static_extension(ext)
}

fn has_static_extension(ext: &[char]) -> (r: bool)
    ensures
        r == is_static_extension(ext@),
{
    same(ext, chars_of("css").as_slice()) || same(ext, chars_of("js").as_slice()) || same(
        ext,
        chars_of("png").as_slice(),
    ) || same(ext, chars_of("svg").as_slice()) || same(ext, chars_of("jpg").as_slice()) || same(
        ext,
        chars_of("jpeg").as_slice(),
    ) || same(ext, chars_of("webp").as_slice()) || same(ext, chars_of("ico").as_slice())
}

/// Whether a request needs no key whatever the mode.
pub fn needs_no_key(method: &str, path: &str) -> (r: bool)
    ensures
        r == is_exempt(method@, path@),
{
    if same_text(method, "OPTIONS") || is_static_asset(path) || same_text(path, "/oauth-callback") {
        return true;
    }
    let cs = chars_of(path);
    let oauth = chars_of("/api/oauth/");
    begins_with(cs.as_slice(), oauth.as_slice())
}

/// The key that a request presents. `authorization` and `api_key` hold the
/// text of the two headers, each where the request has it.
pub fn presented_key(authorization: Option<&str>, api_key: Option<&str>) -> (r: Option<String>)
    ensures
        text_of(r) == presented(text_of_str(authorization), text_of_str(api_key)),
{
    match authorization {
        Some(value) => {
            let cs = chars_of(value);
            let bearer = chars_of("Bearer ");
            if begins_with(cs.as_slice(), bearer.as_slice()) {
                let key = string_of(cs.as_slice(), bearer.len(), cs.len());
                Some(key)
            } else {
                Some(value.to_owned())
            }
        },
        None => match api_key {
            Some(value) => Some(value.to_owned()),
            None => None,
        },
    }
}

/// Whom a presented key is attributed to, once the store has been asked
/// for it. `legacy` is the legacy key, empty where none is configured.
pub fn resolve(key: &str, lookup: StoreLookup, legacy: &str) -> (r: Option<AuthenticatedKey>)
    ensures
        identity_of(r) == resolved(key@, lookup, legacy@),
{
    match lookup {
        StoreLookup::Found(record) => {
            if record.enabled {
                return Some(
                    AuthenticatedKey {
                        key: key.to_owned(),
                        key_id: record.id,
                        key_name: record.name,
                    },
                );
            }
        },
        StoreLookup::Missing => {},
        StoreLookup::Unavailable => {},
    }
    if !legacy.is_empty() && same_text(key, legacy) {
        Some(
            AuthenticatedKey {
                key: key.to_owned(),
                key_id: "legacy".to_owned(),
                key_name: "Legacy Config Key".to_owned(),
            },
        )
    } else {
        None
    }
}

/// Whether a mode lets a path through without a key.
pub fn lets_through(mode: ProxyAuthMode, path: &str) -> (r: bool)
    ensures
        r == is_open(mode, path@),
{
    match mode {
        ProxyAuthMode::Off => true,
        ProxyAuthMode::AllExceptHealth => same_text(path, "/healthz"),
        ProxyAuthMode::Enforced => false,
    }
}

/// What becomes of a request that is not exempt. `key` is the key it
/// presents, if any, and `lookup` what the store answered for that key
/// (anything where there is no key). The identity is attached whatever the
/// mode; the request is turned away where the mode asks for a key and the
/// request was attributed to none.
pub fn authorize(
    mode: ProxyAuthMode,
    path: &str,
    key: Option<&str>,
    lookup: StoreLookup,
    legacy: &str,
) -> (r: AuthOutcome)
    ensures
        r@ == authorization_of(mode, path@, text_of_str(key), lookup, legacy@),
{
    let identity = match key {
        Some(k) => resolve(k, lookup, legacy),
        None => None,
    };
    if lets_through(mode, path) || identity.is_some() {
        AuthOutcome::Proceed { identity }
    } else {
        AuthOutcome::Reject
    }
}

/// What becomes of a request. `key` is the key it presents, if any,
/// `lookup` what the store answered for that key (anything where there is
/// no key, or where the request is exempt and the store was not asked), and
/// `legacy` the legacy key, empty where none is configured.
pub fn auth_middleware(
    mode: ProxyAuthMode,
    method: &str,
    path: &str,
    key: Option<&str>,
    lookup: StoreLookup,
    legacy: &str,
) -> (r: AuthOutcome)
    ensures
        r@ == outcome_of(mode, method@, path@, text_of_str(key), lookup, legacy@),
{
    if needs_no_key(method, path) {
        AuthOutcome::Proceed { identity: None }
    } else {
        authorize(mode, path, key, lookup, legacy)
    }
}

} // verus!
