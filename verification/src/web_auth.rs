//! The session gate: which paths of the administration surface need a
//! session, and what becomes of a request to one.

use vstd::prelude::*;
use vstd::slice::slice_subrange;
use crate::text::{
    after_last, begins_with, chars_of, find_char, finishes_with, last_part, position, same,
    same_text, starts_with, ends_with, string_of, text_of, text_of_str, trim_range, trimmed,
};

verus! {

/// The name of the cookie that carries the session token.
pub const SESSION_COOKIE_NAME: &'static str = "antiproxy_session";

/// The page that a visitor without a session is sent to.
pub const LOGIN_PAGE: &'static str = "/login.html";

/// The status of the answer to an API request without a session.
pub const UNAUTHORIZED: u16 = 401;

/// The body of the answer to an API request without a session.
pub const UNAUTHORIZED_BODY: &'static str = "{\"error\": \"Authentication required\"}";

/// The content type of [`UNAUTHORIZED_BODY`].
pub const UNAUTHORIZED_CONTENT_TYPE: &'static str = "application/json";

/// Whether the part of a path behind its last dot names a static file.
pub open spec fn is_static_extension(ext: Seq<char>) -> bool {
    ||| ext == "css"@
    ||| ext == "js"@
    ||| ext == "png"@
    ||| ext == "svg"@
    ||| ext == "jpg"@
    ||| ext == "jpeg"@
    ||| ext == "webp"@
    ||| ext == "ico"@
    ||| ext == "woff"@
    ||| ext == "woff2"@
    ||| ext == "ttf"@
}

/// Whether a path names a static asset. A page (a path that ends in
/// `.html`) is none. Otherwise the favicon is one, anything under
/// `/assets/`, and any path whose part behind the last dot (the whole path
/// where it has no dot) is a static extension.
pub open spec fn static_asset(path: Seq<char>) -> bool {
    &&& !ends_with(path, ".html"@)
    &&& {
        ||| path == "/favicon.ico"@
        ||| starts_with(path, "/assets/"@)
        ||| is_static_extension(after_last(path, '.'))
    }
}

/// Whether a path that does not lie under `/api/` is open to everybody:
/// static assets, the login page, the page of the OAuth callback, the
/// health check, and the paths of the API protocols, which ask for a key
/// instead.
pub open spec fn is_public_page(path: Seq<char>) -> bool {
    ||| static_asset(path)
    ||| path == "/login.html"@
    ||| path == "/login"@
    ||| path == "/oauth-callback"@
    ||| path == "/healthz"@
    ||| starts_with(path, "/v1/"@)
    ||| starts_with(path, "/v1beta/"@)
}

/// Whether a path needs a session. Under `/api/` every path does but those
/// under `/api/auth/` and `/api/oauth/`; elsewhere every path does that is
/// not open to everybody.
pub open spec fn protected_path(path: Seq<char>) -> bool {
    if starts_with(path, "/api/"@) {
        !starts_with(path, "/api/auth/"@) && !starts_with(path, "/api/oauth/"@)
    } else {
        !is_public_page(path)
    }
}

/// What stands in front of the token in a cookie: the name and `=`.
pub open spec fn cookie_prefix() -> Seq<char> {
    SESSION_COOKIE_NAME@ + seq!['=']
}

/// The session token that a `Cookie` header carries: the header is cut at
/// every semicolon, each piece is taken without the white space around it,
/// and the first piece that starts with the name of the session cookie and
/// `=` gives what stands behind them.
pub open spec fn session_token(cookies: Seq<char>) -> Option<Seq<char>>
    decreases cookies.len(),
{
    let n = position(cookies, ';');
    let piece = trimmed(cookies.take(n));
    if starts_with(piece, cookie_prefix()) {
        Some(piece.skip(cookie_prefix().len() as int))
    } else if 0 <= n < cookies.len() {
        session_token(cookies.skip(n + 1))
    } else {
        None
    }
}

/// The session token of a request: that of its `Cookie` header, where it
/// has one.
pub open spec fn request_token(cookie_header: Option<Seq<char>>) -> Option<Seq<char>> {
    match cookie_header {
        Some(c) => session_token(c),
        None => None,
    }
}

/// How a request without a session is turned away.
#[derive(Clone, Copy, Debug, PartialEq, Eq)]
pub enum Denial {
    /// With status [`UNAUTHORIZED`] and [`UNAUTHORIZED_BODY`].
    Unauthorized,
    /// With a redirect to [`LOGIN_PAGE`].
    RedirectToLogin,
}

/// How a request to `path` is turned away: an API request with an error,
/// any other with a redirect to the login page.
pub open spec fn denial_of(path: Seq<char>) -> Denial {
    if starts_with(path, "/api/"@) {
        Denial::Unauthorized
    } else {
        Denial::RedirectToLogin
    }
}

/// What the session check does with a request before the session store
/// is asked.
#[derive(Clone, Debug)]
pub enum GateStep {
    /// The request goes on: its path needs no session.
    Pass,
    /// The session store is asked whether this token is valid.
    Validate { token: String },
    /// The request is turned away: it carries no token.
    Deny { denial: Denial },
}

/// What a [`GateStep`] holds, with the token as text.
pub enum GateStepView {
    Pass,
    Validate { token: Seq<char> },
    Deny { denial: Denial },
}

impl View for GateStep {
    type V = GateStepView;

    open spec fn view(&self) -> GateStepView {
        match *self {
            GateStep::Pass => GateStepView::Pass,
            GateStep::Validate { token } => GateStepView::Validate { token: token@ },
            GateStep::Deny { denial } => GateStepView::Deny { denial },
        }
    }
}

/// What the session check does with a request to `path` before the
/// session store is asked.
pub open spec fn gate_step(path: Seq<char>, cookie_header: Option<Seq<char>>) -> GateStepView {
    if !protected_path(path) {
        GateStepView::Pass
    } else {
        match request_token(cookie_header) {
            Some(token) => GateStepView::Validate { token },
            None => GateStepView::Deny { denial: denial_of(path) },
        }
    }
}

/// What the session check does with a request once the session store has
/// answered.
#[derive(Clone, Copy, Debug, PartialEq, Eq)]
pub enum GateVerdict {
    /// The session is valid: its expiry is extended, then the request
    /// goes on.
    RefreshAndPass,
    /// The session is not valid: the request is turned away.
    Deny { denial: Denial },
}

/// What the session check does with a request to `path` whose token the
/// session store found valid or not.
pub open spec fn gate_verdict(path: Seq<char>, valid: bool) -> GateVerdict {
    if valid {
        GateVerdict::RefreshAndPass
    } else {
        GateVerdict::Deny { denial: denial_of(path) }
    }
}

/// The paths of the API protocols need no session: they ask for a key
/// instead.
pub proof fn lemma_protocol_paths_need_no_session(path: Seq<char>)
    requires
        starts_with(path, "/v1/"@) || starts_with(path, "/v1beta/"@),
    ensures
        !protected_path(path),
{
    reveal_strlit("/v1/");
    reveal_strlit("/v1beta/");
    reveal_strlit("/api/");
    if starts_with(path, "/v1/"@) {
        assert(path.subrange(0, 4)[1] == 'v');
    } else {
        assert(path.subrange(0, 8)[1] == 'v');
    }
    if starts_with(path, "/api/"@) {
        assert(path.subrange(0, 5)[1] == 'a');
    }
}

/// A request to a path that needs a session never goes on unchecked: it is
/// turned away at once where it carries no token, and else goes on only
/// when the session store found the token valid, with the session
/// refreshed first.
pub proof fn lemma_protected_path_needs_valid_session(
    path: Seq<char>,
    cookie_header: Option<Seq<char>>,
    valid: bool,
)
    requires
        protected_path(path),
    ensures
        !(gate_step(path, cookie_header) is Pass),
        gate_step(path, cookie_header) is Deny <==> request_token(cookie_header) is None,
        gate_verdict(path, valid) is RefreshAndPass <==> valid,
{
}

/// A request that is turned away gets an error where it asked for a path
/// under `/api/`, and a redirect to the login page where not.
pub proof fn lemma_denial_by_surface(path: Seq<char>, cookie_header: Option<Seq<char>>)
    ensures
        gate_step(path, cookie_header) matches GateStepView::Deny { denial } ==> denial
            == denial_of(path),
        gate_verdict(path, false) == (GateVerdict::Deny { denial: denial_of(path) }),
        denial_of(path) == Denial::Unauthorized <==> starts_with(path, "/api/"@),
{
}

fn has_static_extension(ext: &[char]) -> (r: bool)
    ensures
        r == is_static_extension(ext@),
{
    same(ext, chars_of("css").as_slice()) || same(ext, chars_of("js").as_slice()) || same(
        ext,
        chars_of("png").as_slice(),
    ) || same(ext, chars_of("svg").as_slice()) || same(ext, chars_of("jpg").as_slice()) || same(
        ext,
        chars_of("jpeg").as_slice(),
    ) || same(ext, chars_of("webp").as_slice()) || same(ext, chars_of("ico").as_slice()) || same(
        ext,
        chars_of("woff").as_slice(),
    ) || same(ext, chars_of("woff2").as_slice()) || same(ext, chars_of("ttf").as_slice())
}

fn begins(path: &[char], prefix: &str) -> (r: bool)
    ensures
        r == starts_with(path@, prefix@),
{
    let p = chars_of(prefix);
    begins_with(path, p.as_slice())
}

/// Whether `path` names a static asset.
pub fn is_static_asset(path: &str) -> (r: bool)
    ensures
        r == static_asset(path@),
{
    let cs = chars_of(path);
    let html = chars_of(".html");
    if finishes_with(cs.as_slice(), html.as_slice()) {
        return false;
    }
    if same_text(path, "/favicon.ico") {
        return true;
    }
    if begins(cs.as_slice(), "/assets/") {
        return true;
    }
    let from = last_part(cs.as_slice(), '.');
    let ext = slice_subrange(cs.as_slice(), from, cs.len());
    has_static_extension(ext)
}

/// Whether `path` needs a session.
pub fn is_protected_path(path: &str) -> (r: bool)
    ensures
        r == protected_path(path@),
{
    let cs = chars_of(path);
    if begins(cs.as_slice(), "/api/") {
        if begins(cs.as_slice(), "/api/auth/") {
            return false;
        }
        if begins(cs.as_slice(), "/api/oauth/") {
            return false;
        }
        return true;
    }
    if is_static_asset(path) {
        return false;
    }
    if same_text(path, "/login.html") || same_text(path, "/login") {
        return false;
    }
    if same_text(path, "/oauth-callback") {
        return false;
    }
    if same_text(path, "/healthz") {
        return false;
    }
    if begins(cs.as_slice(), "/v1/") || begins(cs.as_slice(), "/v1beta/") {
        return false;
    }
    true
}

/// The session token that a request carries. `cookie_header` holds the
/// text of its `Cookie` header, where it has one.
pub fn extract_session_token(cookie_header: Option<&str>) -> (r: Option<String>)
    ensures
        text_of(r) == request_token(text_of_str(cookie_header)),
{
    let header = match cookie_header {
        Some(h) => h,
        None => {
            return None;
        },
    };
    let cs = chars_of(header);
    let mut prefix = chars_of(SESSION_COOKIE_NAME);
    prefix.push('=');
    let mut at: usize = 0;
    assert(cs@.skip(0) =~= cs@);
    loop
        invariant
            at <= cs@.len(),
            prefix@ == cookie_prefix(),
            request_token(text_of_str(cookie_header)) == session_token(cs@.skip(at as int)),
        decreases cs@.len() - at,
    {
        let end = find_char(cs.as_slice(), ';', at, cs.len());
        let (a, b) = trim_range(cs.as_slice(), at, end);
        let piece = slice_subrange(cs.as_slice(), a, b);
        proof {
            let rest = cs@.skip(at as int);
            assert(rest.take(end - at) =~= cs@.subrange(at as int, end as int));
            if end < cs@.len() {
                assert(rest.skip(end - at + 1) =~= cs@.skip(end + 1));
            }
        }
        if begins_with(piece, prefix.as_slice()) {
            let token = string_of(piece, prefix.len(), piece.len());
            return Some(token);
        }
        if end >= cs.len() {
            return None;
        }
        at = end + 1;
    }
}

/// What the session check does with a request to `path` before the
/// session store is asked.
pub fn web_auth_middleware(path: &str, cookie_header: Option<&str>) -> (r: GateStep)
    ensures
        r@ == gate_step(path@, text_of_str(cookie_header)),
{
    if !is_protected_path(path) {
        return GateStep::Pass;
    }
    match extract_session_token(cookie_header) {
        Some(token) => GateStep::Validate { token },
        None => GateStep::Deny { denial: denial(path) },
    }
}

/// How a request to `path` is turned away.
pub fn denial(path: &str) -> (r: Denial)
    ensures
        r == denial_of(path@),
{
    let cs = chars_of(path);
    if begins(cs.as_slice(), "/api/") {
        Denial::Unauthorized
    } else {
        Denial::RedirectToLogin
    }
}

/// What the session check does with a request to `path` whose token the
/// session store found valid or not.
pub fn session_checked(path: &str, valid: bool) -> (r: GateVerdict)
    ensures
        r == gate_verdict(path@, valid),
{
    if valid {
        GateVerdict::RefreshAndPass
    } else {
        GateVerdict::Deny { denial: denial(path) }
    }
}

} // verus!
