//! The upstream client: the order in which the endpoints are tried, what is
//! sent to each, and what follows from each answer.

use vstd::prelude::*;
use crate::text::{same_text, text_of, text_of_str};

verus! {

/// The endpoint that is tried first until another one has proved better.
pub const V1_INTERNAL_BASE_URL_DAILY: &'static str =
    "https://daily-cloudcode-pa.googleapis.com/v1internal";

/// The endpoint that is tried second.
pub const V1_INTERNAL_BASE_URL_PROD: &'static str = "https://cloudcode-pa.googleapis.com/v1internal";

/// The user agent of a client that was configured with none.
pub const DEFAULT_USER_AGENT: &'static str = "antigravity/1.13.3 darwin/arm64";

/// The user agent that is sent where the client's own cannot stand in a
/// header.
pub const FALLBACK_USER_AGENT: &'static str = "antigravity/1.11.9 windows/amd64";

/// The remote method that lists the models.
pub const FETCH_AVAILABLE_MODELS: &'static str = "fetchAvailableModels";

/// Calls `HeaderValue::from_str` of `reqwest::header`, and where that
/// refuses the value, turns the error into text. The value is accepted
/// where each of its bytes is a tab or at least 32 and not 127, which a
/// character is exactly where all the bytes of its encoding are; the text
/// of the error is always the same.
#[verifier::external_body]
fn header_error(value: &str) -> (r: Option<String>)
    ensures
        match r {
            Some(e) => !is_header_text(value@) && e@ == "failed to parse header value"@,
            None => is_header_text(value@),
        },
{
    reqwest::header::HeaderValue::from_str(value).err().map(|e| e.to_string())
}

/// Whether a character can stand in the value of a header: a tab, and
/// every character from the space on but the delete character.
pub open spec fn is_header_char(c: char) -> bool {
    c == '\t' || (c as u32 >= 32 && c as u32 != 127)
}

/// Whether a text can be the value of a header.
pub open spec fn is_header_text(s: Seq<char>) -> bool {
    forall|i: int| 0 <= i < s.len() ==> is_header_char(#[trigger] s[i])
}

/// The value of the `Authorization` header for an access token.
pub open spec fn bearer(access_token: Seq<char>) -> Seq<char> {
    "Bearer "@ + access_token
}

/// The user agent that is sent: the client's own, or the fallback where
/// that cannot be the value of a header.
pub open spec fn sent_agent(agent: Seq<char>) -> Seq<char> {
    if is_header_text(agent) {
        agent
    } else {
        FALLBACK_USER_AGENT@
    }
}

/// The headers of a request to the upstream.
#[derive(Clone, Debug)]
pub struct RequestHeaders {
    pub content_type: String,
    pub authorization: String,
    pub user_agent: String,
}

/// The texts of a list of strings.
pub open spec fn texts(v: Seq<String>) -> Seq<Seq<char>> {
    Seq::new(v.len(), |i: int| v[i]@)
}

/// The order after the endpoint at place `k` has been promoted: it stands
/// first, and the others follow in the order they had. Place 0 and places
/// outside the list leave the order as it is.
pub open spec fn promoted<T>(order: Seq<T>, k: int) -> Seq<T> {
    if 0 < k < order.len() {
        seq![order[k]] + order.remove(k)
    } else {
        order
    }
}

/// The first place at which `order` holds `endpoint`, or the length of
/// `order` where it holds it nowhere.
pub open spec fn place_of(order: Seq<Seq<char>>, endpoint: Seq<char>) -> int
    decreases order.len(),
{
    if order.len() == 0 {
        0
    } else if order[0] == endpoint {
        0
    } else {
        1 + place_of(order.drop_first(), endpoint)
    }
}

/// The place that a promotion moves. A call names the endpoint that
/// succeeded and the place at which it stood when the call began. Where the
/// order still holds that endpoint at that place, it is that place;
/// otherwise, the order having changed meanwhile, it is the first place at
/// which the order holds the endpoint now, or the length of an order that
/// holds it nowhere.
pub open spec fn moved_place(order: Seq<Seq<char>>, place: int, endpoint: Seq<char>) -> int {
    if 0 <= place < order.len() && order[place] == endpoint {
        place
    } else {
        place_of(order, endpoint)
    }
}

/// The order after a promotion: the endpoint is taken from the place that
/// [`moved_place`] gives and put first, and the others follow in the order
/// they had. Where that place is the first already, or the order does not
/// hold the endpoint, the order stays as it is.
pub open spec fn promoted_endpoint(order: Seq<Seq<char>>, place: int, endpoint: Seq<char>) -> Seq<
    Seq<char>,
> {
    promoted(order, moved_place(order, place, endpoint))
}

/// The address of a call: the base, a colon and the method, and behind a
/// question mark the query string where there is one.
pub open spec fn url_of(base: Seq<char>, method: Seq<char>, query: Option<Seq<char>>) -> Seq<char> {
    match query {
        Some(q) => base + seq![':'] + method + seq!['?'] + q,
        None => base + seq![':'] + method,
    }
}

/// Whether a status that is no success is worth another endpoint: too
/// many requests, a timeout, not found, and every server error.
pub open spec fn is_retryable(status: u16) -> bool {
    status == 429 || status == 408 || status == 404 || (500 <= status < 600)
}

/// Whether a status reports success: 200 to 299.
pub open spec fn is_success(status: u16) -> bool {
    200 <= status < 300
}

/// Where `place_of` lies: the first place at which `endpoint` stands.
pub proof fn lemma_place_of(order: Seq<Seq<char>>, endpoint: Seq<char>, k: int)
    requires
        0 <= k <= order.len(),
        forall|j: int| 0 <= j < k ==> order[j] != endpoint,
        k < order.len() ==> order[k] == endpoint,
    ensures
        place_of(order, endpoint) == k,
    decreases order.len(),
{
    if order.len() > 0 && order[0] != endpoint {
        lemma_place_of(order.drop_first(), endpoint, k - 1);
    }
}

/// `place_of` is a place of the order that holds the endpoint, with no
/// earlier place that holds it, or the length of an order that does not
/// hold it.
pub proof fn lemma_place_of_is_first(order: Seq<Seq<char>>, endpoint: Seq<char>)
    ensures
        0 <= place_of(order, endpoint) <= order.len(),
        forall|j: int| 0 <= j < place_of(order, endpoint) ==> order[j] != endpoint,
        place_of(order, endpoint) < order.len() ==> order[place_of(order, endpoint)] == endpoint,
        place_of(order, endpoint) < order.len() <==> order.contains(endpoint),
    decreases order.len(),
{
    if order.len() > 0 && order[0] != endpoint {
        let rest = order.drop_first();
        lemma_place_of_is_first(rest, endpoint);
        assert forall|j: int| 0 <= j < place_of(order, endpoint) implies order[j] != endpoint by {
            if j > 0 {
                assert(order[j] == rest[j - 1]);
            }
        }
        if order.contains(endpoint) {
            let i = choose|i: int| 0 <= i < order.len() && order[i] == endpoint;
            assert(rest[i - 1] == endpoint);
        }
    }
}

/// The place that a promotion moves holds the endpoint where the order
/// holds it at all, and is the length of the order where it does not.
pub proof fn lemma_moved_place(order: Seq<Seq<char>>, place: int, endpoint: Seq<char>)
    ensures
        0 <= moved_place(order, place, endpoint) <= order.len(),
        order.contains(endpoint) <==> moved_place(order, place, endpoint) < order.len(),
        order.contains(endpoint) ==> order[moved_place(order, place, endpoint)] == endpoint,
{
    lemma_place_of_is_first(order, endpoint);
    if 0 <= place < order.len() && order[place] == endpoint {
        assert(order.contains(endpoint));
    }
}

/// An endpoint of the order stands first once it has been promoted, and the
/// others follow in the order they had; none is lost or added. An endpoint
/// that the order does not hold changes nothing.
pub proof fn lemma_promoted_endpoint_stands_first(
    order: Seq<Seq<char>>,
    place: int,
    endpoint: Seq<char>,
)
    ensures
        promoted_endpoint(order, place, endpoint).len() == order.len(),
        order.contains(endpoint) ==> promoted_endpoint(order, place, endpoint)[0] == endpoint,
        order.contains(endpoint) ==> promoted_endpoint(order, place, endpoint).drop_first()
            == order.remove(moved_place(order, place, endpoint)),
        !order.contains(endpoint) ==> promoted_endpoint(order, place, endpoint) == order,
{
    lemma_moved_place(order, place, endpoint);
    let k = moved_place(order, place, endpoint);
    if 0 < k < order.len() {
        lemma_promoted_order(order, k);
    }
}

/// Promoting the endpoint that is first already changes nothing, however
/// often it is done; and once an endpoint has been promoted, from whatever
/// place, promoting it as the first changes nothing more.
pub proof fn lemma_promote_first_is_noop(order: Seq<Seq<char>>, place: int, endpoint: Seq<char>)
    ensures
        order.len() > 0 ==> promoted_endpoint(order, 0, order[0]) == order,
        promoted_endpoint(promoted_endpoint(order, place, endpoint), 0, endpoint)
            == promoted_endpoint(order, place, endpoint),
{
    lemma_promoted_endpoint_stands_first(order, place, endpoint);
    let once = promoted_endpoint(order, place, endpoint);
    if !order.contains(endpoint) {
        lemma_place_of_is_first(once, endpoint);
    }
}

/// A promotion that comes late changes nothing: where the endpoint stands
/// first by now and no longer at the place that the call names, the order
/// stays as it is.
pub proof fn lemma_late_promotion_is_noop(order: Seq<Seq<char>>, place: int, endpoint: Seq<char>)
    requires
        order.len() > 0,
        order[0] == endpoint,
        !(0 <= place < order.len() && order[place] == endpoint),
    ensures
        promoted_endpoint(order, place, endpoint) == order,
{
    lemma_place_of(order, endpoint, 0);
}

/// What promotion does: the promoted endpoint stands first, the others
/// keep their order, and none is lost or added.
pub proof fn lemma_promoted_order<T>(order: Seq<T>, k: int)
    requires
        0 < k < order.len(),
    ensures
        promoted(order, k).len() == order.len(),
        promoted(order, k)[0] == order[k],
        promoted(order, k).drop_first() == order.remove(k),
        forall|i: int| 0 <= i < k ==> promoted(order, k)[i + 1] == order[i],
        forall|i: int| k < i < order.len() ==> promoted(order, k)[i] == order[i],
{
}

/// Promotion of texts is promotion of the strings that hold them.
pub proof fn lemma_texts_promoted(v: Seq<String>, k: int)
    ensures
        texts(promoted(v, k)) == promoted(texts(v), k),
{
}

/// How the client reaches the upstream, as configured.
#[derive(Clone, Debug)]
pub struct UpstreamProxyConfig {
    pub enabled: bool,
    pub url: String,
    pub user_agent: String,
}

/// The way requests take to the upstream.
#[derive(Clone, Debug)]
pub enum ProxyRoute {
    /// Straight to the upstream, whatever the environment says of proxies.
    Direct,
    /// Through the proxy at this address.
    Via(String),
}

/// The address of the proxy of a route; nothing for the direct route.
pub open spec fn via_of(route: ProxyRoute) -> Option<Seq<char>> {
    match route {
        ProxyRoute::Direct => None,
        ProxyRoute::Via(url) => Some(url@),
    }
}

/// The user agent of a client: the configured one, unless it is empty or
/// nothing is configured.
pub open spec fn agent_of(config: Option<UpstreamProxyConfig>) -> Seq<char> {
    match config {
        Some(c) => if c.user_agent@.len() > 0 {
            c.user_agent@
        } else {
            DEFAULT_USER_AGENT@
        },
        None => DEFAULT_USER_AGENT@,
    }
}

/// The proxy of a client: the configured one where the proxy is switched
/// on and has an address.
pub open spec fn proxy_of(config: Option<UpstreamProxyConfig>) -> Option<Seq<char>> {
    match config {
        Some(c) => if c.enabled && c.url@.len() > 0 {
            Some(c.url@)
        } else {
            None
        },
        None => None,
    }
}

/// The order in which a new client tries the endpoints.
pub open spec fn initial_order() -> Seq<Seq<char>> {
    seq![V1_INTERNAL_BASE_URL_DAILY@, V1_INTERNAL_BASE_URL_PROD@]
}

/// The state of the upstream client: who it says it is, how it reaches
/// the upstream, and the order in which it tries the endpoints.
pub struct UpstreamClient {
    user_agent: String,
    route: ProxyRoute,
    endpoints: Vec<String>,
}

impl UpstreamClient {
    /// The endpoints in the order in which they are tried.
    pub closed spec fn order(self) -> Seq<Seq<char>> {
        texts(self.endpoints@)
    }

    /// The user agent.
    pub closed spec fn agent(self) -> Seq<char> {
        self.user_agent@
    }

    /// The address of the proxy, where requests go through one.
    pub closed spec fn via(self) -> Option<Seq<char>> {
        via_of(self.route)
    }

    /// A client as configured, with the endpoints in their initial order.
    pub fn new(proxy_config: Option<UpstreamProxyConfig>) -> (r: UpstreamClient)
        ensures
            r.agent() == agent_of(proxy_config),
            r.via() == proxy_of(proxy_config),
            r.order() == initial_order(),
    {
        let mut endpoints: Vec<String> = Vec::new();
        endpoints.push(V1_INTERNAL_BASE_URL_DAILY.to_owned());
        endpoints.push(V1_INTERNAL_BASE_URL_PROD.to_owned());
        UpstreamClient::with_endpoints(proxy_config, endpoints)
    }

    /// A client as configured that tries `endpoints` in the order given.
    pub fn with_endpoints(proxy_config: Option<UpstreamProxyConfig>, endpoints: Vec<String>) -> (r:
        UpstreamClient)
        ensures
            r.agent() == agent_of(proxy_config),
            r.via() == proxy_of(proxy_config),
            r.order() == texts(endpoints@),
    {
        match proxy_config {
            Some(config) => {
                let route = if config.enabled && !config.url.as_str().is_empty() {
                    ProxyRoute::Via(config.url)
                } else {
                    ProxyRoute::Direct
                };
                let user_agent = if config.user_agent.as_str().is_empty() {
                    DEFAULT_USER_AGENT.to_owned()
                } else {
                    config.user_agent
                };
                UpstreamClient { user_agent, route, endpoints }
            },
            None => UpstreamClient {
                user_agent: DEFAULT_USER_AGENT.to_owned(),
                route: ProxyRoute::Direct,
                endpoints,
            },
        }
    }

    /// The user agent.
    pub fn user_agent(&self) -> (r: &str)
        ensures
            r@ == self.agent(),
    {
        self.user_agent.as_str()
    }

    /// The way requests take to the upstream.
    pub fn route(&self) -> (r: &ProxyRoute)
        ensures
            via_of(*r) == self.via(),
    {
        &self.route
    }

    /// The headers of a request that carries `access_token`. A token that
    /// cannot stand in a header fails the call before anything is sent.
    pub fn request_headers(&self, access_token: &str) -> (r: Result<RequestHeaders, String>)
        ensures
            match r {
                Ok(h) => {
                    &&& is_header_text(bearer(access_token@))
                    &&& h.content_type@ == "application/json"@
                    &&& h.authorization@ == bearer(access_token@)
                    &&& h.user_agent@ == sent_agent(self.agent())
                },
                Err(e) => !is_header_text(bearer(access_token@)) && e@
                    == "failed to parse header value"@,
            },
    {
        let mut authorization = "Bearer ".to_owned();
        authorization.append(access_token);
        match header_error(authorization.as_str()) {
            Some(error) => Err(error),
            None => {
                let user_agent = match header_error(self.user_agent.as_str()) {
                    Some(_) => FALLBACK_USER_AGENT.to_owned(),
                    None => self.user_agent.clone(),
                };
                Ok(
                    RequestHeaders {
                        content_type: "application/json".to_owned(),
                        authorization,
                        user_agent,
                    },
                )
            },
        }
    }

    /// The endpoints in the order in which a call that starts now tries
    /// them.
    pub fn endpoints(&self) -> (r: Vec<String>)
        ensures
            texts(r@) == self.order(),
    {
        let mut r: Vec<String> = Vec::new();
        let mut i: usize = 0;
        while i < self.endpoints.len()
            invariant
                i <= self.endpoints@.len(),
                r@.len() == i,
                forall|j: int| 0 <= j < i ==> r@[j]@ == self.endpoints@[j]@,
            decreases self.endpoints@.len() - i,
        {
            r.push(self.endpoints[i].clone());
            i += 1;
        }
        r
    }

    /// Moves an endpoint that succeeded to the front. `place` is the place
    /// at which it stood when its call began. Where the order still holds
    /// `endpoint` there, that place moves; otherwise the first place that
    /// holds it now. Where the place to move is the first already, or the
    /// order no longer holds the endpoint, nothing changes.
    pub fn promote_endpoint(&mut self, place: usize, endpoint: &str)
        ensures
            final(self).order() == promoted_endpoint(old(self).order(), place as int, endpoint@),
            final(self).agent() == old(self).agent(),
            final(self).via() == old(self).via(),
    {
        let count = self.endpoints.len();
        let mut at: usize = 0;
        if place < count && same_text(self.endpoints[place].as_str(), endpoint) {
            at = place;
        } else {
            while at < count && !same_text(self.endpoints[at].as_str(), endpoint)
                invariant
                    at <= count == self.endpoints@.len(),
                    *self == *old(self),
                    forall|j: int| 0 <= j < at ==> texts(self.endpoints@)[j] != endpoint@,
                decreases count - at,
            {
                at += 1;
            }
            proof {
                lemma_place_of(texts(self.endpoints@), endpoint@, at as int);
            }
        }
        if 0 < at && at < count {
            let promoted_one = self.endpoints.remove(at);
            self.endpoints.insert(0, promoted_one);
            proof {
                lemma_texts_promoted(old(self).endpoints@, at as int);
            }
        }
    }

    /// The address of a call of `method` at the endpoint `base_url`.
    pub fn build_url(base_url: &str, method: &str, query_string: Option<&str>) -> (r: String)
        ensures
            r@ == url_of(base_url@, method@, text_of_str(query_string)),
    {
        proof {
            reveal_strlit(":");
            reveal_strlit("?");
        }
        let mut url = base_url.to_owned();
        url.append(":");
        url.append(method);
        match query_string {
            Some(qs) => {
                url.append("?");
                url.append(qs);
            },
            None => {},
        }
        url
    }

    /// Whether a status that is no success is worth another endpoint.
    pub fn should_try_next_endpoint(status: u16) -> (r: bool)
        ensures
            r == is_retryable(status),
    {
        status == 429 || status == 408 || status == 404 || (500 <= status && status < 600)
    }

    fn begin(&self, kind: CallKind, method: &str, access_token: &str, query_string: Option<&str>) -> (r:
        Result<Failover, String>)
        ensures
            call_begun(*self, kind, method@, access_token@, text_of_str(query_string), r),
    {
        let headers = match self.request_headers(access_token) {
            Ok(h) => h,
            Err(e) => {
                return Err(e);
            },
        };
        let endpoints = self.endpoints();
        if endpoints.len() == 0 {
            return Err("All endpoints failed".to_owned());
        }
        let query = match query_string {
            Some(q) => Some(q.to_owned()),
            None => None,
        };
        Ok(
            Failover {
                kind,
                method: method.to_owned(),
                query_string: query,
                headers,
                endpoints,
                index: 0,
            },
        )
    }

    /// Begins a call of `method` with `access_token`. The call tries the
    /// endpoints in the order they have now, first endpoint first, whatever
    /// becomes of the order meanwhile. A token that cannot stand in a
    /// header has failed the call already, and so has a client without
    /// endpoints.
    pub fn call_v1_internal(&self, method: &str, access_token: &str, query_string: Option<&str>) -> (r:
        Result<Failover, String>)
        ensures
            call_begun(
                *self,
                CallKind::Invoke,
                method@,
                access_token@,
                text_of_str(query_string),
                r,
            ),
    {
        self.begin(CallKind::Invoke, method, access_token, query_string)
    }

    /// Begins a listing of the models with `access_token`, which goes like
    /// a call of the method [`FETCH_AVAILABLE_MODELS`] without a query
    /// string.
    pub fn fetch_available_models(&self, access_token: &str) -> (r: Result<Failover, String>)
        ensures
            call_begun(
                *self,
                CallKind::ListModels,
                FETCH_AVAILABLE_MODELS@,
                access_token@,
                None,
                r,
            ),
    {
        self.begin(CallKind::ListModels, FETCH_AVAILABLE_MODELS, access_token, None)
    }
}

/// Which of the two upstream operations a call is.
#[derive(Clone, Copy, Debug, PartialEq, Eq)]
pub enum CallKind {
    /// A call of a remote method with a payload: whatever the upstream
    /// answers in the end goes to the caller as it is.
    Invoke,
    /// The listing of the models: only a success goes to the caller.
    ListModels,
}

/// How one attempt at one endpoint ended.
#[derive(Clone, Debug)]
pub enum Attempt {
    /// No answer came: the connection failed or timed out. `detail` says
    /// how.
    Failed { detail: String },
    /// The endpoint answered. `status_text` is the status as it is printed,
    /// code and reason.
    Answered { status: u16, status_text: String },
}

/// The endpoint that a call found to work: its address, and the place at
/// which it stood in the order that the call began with.
#[derive(Clone, Debug)]
pub struct Promotion {
    pub place: usize,
    pub endpoint: String,
}

/// What a [`Promotion`] holds, with the endpoint as text.
pub struct PromotionView {
    pub place: int,
    pub endpoint: Seq<char>,
}

impl View for Promotion {
    type V = PromotionView;

    open spec fn view(&self) -> PromotionView {
        PromotionView { place: self.place as int, endpoint: self.endpoint@ }
    }
}

/// What a promotion that may be missing holds.
pub open spec fn promotion_of(p: Option<Promotion>) -> Option<PromotionView> {
    match p {
        Some(q) => Some(q@),
        None => None,
    }
}

/// What follows from an attempt.
#[derive(Clone, Debug)]
pub enum Verdict {
    /// The answer goes to the caller as it is. Before that the endpoint
    /// that gave the answer is promoted, where `promote` names it.
    Deliver { promote: Option<Promotion> },
    /// The next endpoint is tried.
    Advance,
    /// The call fails with this error.
    Fail { error: String },
}

/// What a [`Verdict`] holds, with the endpoint and the error as text.
pub enum VerdictView {
    Deliver { promote: Option<PromotionView> },
    Advance,
    Fail { error: Seq<char> },
}

impl View for Verdict {
    type V = VerdictView;

    open spec fn view(&self) -> VerdictView {
        match *self {
            Verdict::Deliver { promote } => VerdictView::Deliver { promote: promotion_of(promote) },
            Verdict::Advance => VerdictView::Advance,
            Verdict::Fail { error } => VerdictView::Fail { error: error@ },
        }
    }
}

/// The error of a call whose last endpoint gave no answer.
pub open spec fn transport_error(kind: CallKind, base: Seq<char>, detail: Seq<char>) -> Seq<char> {
    match kind {
        CallKind::Invoke => "HTTP request failed at "@ + base + ": "@ + detail,
        CallKind::ListModels => "Request failed at "@ + base + ": "@ + detail,
    }
}

/// The error of a listing that the upstream refused.
pub open spec fn status_error(status_text: Seq<char>) -> Seq<char> {
    "Upstream error: "@ + status_text
}

/// Whether the call goes on to the next endpoint after an attempt, given
/// that there is a next one: no answer came, or a failure that is worth
/// another endpoint.
pub open spec fn goes_on(attempt: Attempt) -> bool {
    match attempt {
        Attempt::Failed { .. } => true,
        Attempt::Answered { status, .. } => !is_success(status) && is_retryable(status),
    }
}

/// Whether an attempt was answered with a success.
pub open spec fn succeeded(attempt: Attempt) -> bool {
    match attempt {
        Attempt::Failed { .. } => false,
        Attempt::Answered { status, .. } => is_success(status),
    }
}

/// What follows from the attempt at the endpoint at place `index` of
/// `order`.
///
/// A success is delivered, and promotes its endpoint unless that is the
/// first. After a failed connection, or a failure that is worth another
/// endpoint, the next endpoint is tried where there is one. Any other
/// answer ends the call: a call of a method delivers it as it is, a
/// listing fails with the status. A failed connection at the last endpoint
/// fails the call with what went wrong.
pub open spec fn verdict_of(kind: CallKind, order: Seq<Seq<char>>, index: int, attempt: Attempt) -> VerdictView {
    let has_next = index + 1 < order.len();
    match attempt {
        Attempt::Answered { status, status_text } => {
            if is_success(status) {
                VerdictView::Deliver {
                    promote: if index > 0 {
                        Some(PromotionView { place: index, endpoint: order[index] })
                    } else {
                        None
                    },
                }
            } else if has_next && is_retryable(status) {
                VerdictView::Advance
            } else {
                match kind {
                    CallKind::Invoke => VerdictView::Deliver { promote: None },
                    CallKind::ListModels => VerdictView::Fail { error: status_error(status_text@) },
                }
            }
        },
        Attempt::Failed { detail } => {
            if has_next {
                VerdictView::Advance
            } else {
                VerdictView::Fail { error: transport_error(kind, order[index], detail@) }
            }
        },
    }
}

/// The place of the attempt at which a call ends that is at place `index`
/// now: the first from there after which the call does not go on.
pub open spec fn ends_at(kind: CallKind, order: Seq<Seq<char>>, attempts: Seq<Attempt>, index: int) -> int
    decreases order.len() - index,
{
    if index + 1 < order.len() && verdict_of(kind, order, index, attempts[index])
        is Advance {
        ends_at(kind, order, attempts, index + 1)
    } else {
        index
    }
}

/// What a call comes to, where `attempts[i]` is how the attempt at the
/// endpoint at place `i` ends if it is made.
pub open spec fn call_verdict(kind: CallKind, order: Seq<Seq<char>>, attempts: Seq<Attempt>) -> VerdictView {
    if order.len() == 0 {
        VerdictView::Fail { error: "All endpoints failed"@ }
    } else {
        let last = ends_at(kind, order, attempts, 0);
        verdict_of(kind, order, last, attempts[last])
    }
}

/// The shared order after a call. `order` is the order that the call
/// began with, and `now` the shared order as it stands when the call ends:
/// the same where no other call promoted meanwhile, another where one did.
/// The call promotes the endpoint that it delivers a success of, in the
/// order as it stands then: from the place at which the call found it
/// where it still stands there, from the first place that holds it where
/// not.
pub open spec fn order_after(
    kind: CallKind,
    order: Seq<Seq<char>>,
    attempts: Seq<Attempt>,
    now: Seq<Seq<char>>,
) -> Seq<Seq<char>> {
    match call_verdict(kind, order, attempts) {
        VerdictView::Deliver { promote: Some(p) } => promoted_endpoint(now, p.place, p.endpoint),
        _ => now,
    }
}

/// A call whose attempts go on up to place `upto` ends at the place at
/// which one that starts at `upto` ends.
proof fn lemma_ends_at_skips(
    kind: CallKind,
    order: Seq<Seq<char>>,
    attempts: Seq<Attempt>,
    index: int,
    upto: int,
)
    requires
        0 <= index <= upto < order.len(),
        forall|j: int| index <= j < upto ==> goes_on(#[trigger] attempts[j]),
    ensures
        ends_at(kind, order, attempts, index) == ends_at(kind, order, attempts, upto),
    decreases upto - index,
{
    if index < upto {
        assert(goes_on(attempts[index]));
        lemma_ends_at_skips(kind, order, attempts, index + 1, upto);
    }
}

/// Where the endpoint at place `k`, not the first, is the first to answer
/// with a success, and the call went on after every attempt before it, the
/// call delivers that answer and names that endpoint and that place for
/// promotion. Afterwards the endpoint of place `k` stands first, and the
/// others follow in the order they had.
pub proof fn lemma_first_success_is_promoted(
    kind: CallKind,
    order: Seq<Seq<char>>,
    attempts: Seq<Attempt>,
    k: int,
)
    requires
        0 < k < order.len(),
        succeeded(attempts[k]),
        forall|j: int| 0 <= j < k ==> goes_on(#[trigger] attempts[j]),
    ensures
        call_verdict(kind, order, attempts) == (VerdictView::Deliver {
            promote: Some(PromotionView { place: k, endpoint: order[k] }),
        }),
        order_after(kind, order, attempts, order) == promoted(order, k),
        order_after(kind, order, attempts, order) == seq![order[k]] + order.subrange(0, k)
            + order.subrange(k + 1, order.len() as int),
        order_after(kind, order, attempts, order).len() == order.len(),
        order_after(kind, order, attempts, order)[0] == order[k],
        order_after(kind, order, attempts, order).drop_first() == order.remove(k),
{
    lemma_ends_at_skips(kind, order, attempts, 0, k);
    lemma_promoted_order(order, k);
    assert(promoted(order, k) =~= seq![order[k]] + order.subrange(0, k) + order.subrange(
        k + 1,
        order.len() as int,
    ));
}

/// The same where other calls have promoted meanwhile: whatever the shared
/// order has become, as long as it still holds the endpoint that succeeded,
/// that endpoint stands first after the call, and the others follow in the
/// order they had then. Where it stands first already and no longer at
/// place `k`, nothing moves.
pub proof fn lemma_success_stands_first_whatever_came_between(
    kind: CallKind,
    order: Seq<Seq<char>>,
    attempts: Seq<Attempt>,
    k: int,
    now: Seq<Seq<char>>,
)
    requires
        0 < k < order.len(),
        succeeded(attempts[k]),
        forall|j: int| 0 <= j < k ==> goes_on(#[trigger] attempts[j]),
        now.contains(order[k]),
    ensures
        order_after(kind, order, attempts, now).len() == now.len(),
        order_after(kind, order, attempts, now)[0] == order[k],
        order_after(kind, order, attempts, now).drop_first() == now.remove(
            moved_place(now, k, order[k]),
        ),
        now[0] == order[k] && !(k < now.len() && now[k] == order[k]) ==> order_after(
            kind,
            order,
            attempts,
            now,
        ) == now,
{
    lemma_ends_at_skips(kind, order, attempts, 0, k);
    lemma_promoted_endpoint_stands_first(now, k, order[k]);
    if now[0] == order[k] && !(k < now.len() && now[k] == order[k]) {
        lemma_late_promotion_is_noop(now, k, order[k]);
    }
}

/// Where every endpoint answers with a failure that is not worth another
/// endpoint, the order stays as it was.
pub proof fn lemma_plain_failures_keep_order(
    kind: CallKind,
    order: Seq<Seq<char>>,
    attempts: Seq<Attempt>,
    now: Seq<Seq<char>>,
)
    requires
        forall|j: int|
            0 <= j < order.len() ==> !goes_on(#[trigger] attempts[j]) && !succeeded(attempts[j]),
    ensures
        order_after(kind, order, attempts, now) == now,
        order.len() > 0 ==> ends_at(kind, order, attempts, 0) == 0,
{
    if order.len() > 0 {
        assert(!goes_on(attempts[0]) && !succeeded(attempts[0]));
    }
}

/// The order changes only where the call delivers a success of an endpoint
/// that was not the first of its own order, and then by promoting that
/// endpoint.
pub proof fn lemma_order_changes_by_promotion_only(
    kind: CallKind,
    order: Seq<Seq<char>>,
    attempts: Seq<Attempt>,
    now: Seq<Seq<char>>,
)
    ensures
        order_after(kind, order, attempts, now) == now || (exists|k: int|
            0 < k < order.len() && succeeded(attempts[k]) && order_after(
                kind,
                order,
                attempts,
                now,
            ) == promoted_endpoint(now, k, order[k])),
{
    if order.len() > 0 {
        let last = ends_at(kind, order, attempts, 0);
        lemma_ends_at_in_range(kind, order, attempts, 0);
        if verdict_of(kind, order, last, attempts[last]) matches VerdictView::Deliver {
            promote: Some(p),
        } {
            assert(0 < last < order.len() && succeeded(attempts[last]));
        }
    }
}

/// A call ends at a place of the list.
pub proof fn lemma_ends_at_in_range(kind: CallKind, order: Seq<Seq<char>>, attempts: Seq<Attempt>, index: int)
    requires
        0 <= index < order.len(),
    ensures
        index <= ends_at(kind, order, attempts, index) < order.len(),
    decreases order.len() - index,
{
    if index + 1 < order.len() && verdict_of(kind, order, index, attempts[index]) is Advance {
        lemma_ends_at_in_range(kind, order, attempts, index + 1);
    }
}

/// What the beginning of a call gives. A token that cannot stand in a
/// header gives the error of the header; else a client without endpoints
/// gives the error that all endpoints failed; else the call stands at the
/// first endpoint of the client's order, with the headers of the client.
pub open spec fn call_begun(
    client: UpstreamClient,
    kind: CallKind,
    method: Seq<char>,
    access_token: Seq<char>,
    query: Option<Seq<char>>,
    r: Result<Failover, String>,
) -> bool {
    if !is_header_text(bearer(access_token)) {
        r is Err && r->Err_0@ == "failed to parse header value"@
    } else if client.order().len() == 0 {
        r is Err && r->Err_0@ == "All endpoints failed"@
    } else {
        &&& r is Ok
        &&& r->Ok_0.kind() == kind
        &&& r->Ok_0.method() == method
        &&& r->Ok_0.query() == query
        &&& r->Ok_0.order() == client.order()
        &&& r->Ok_0.index() == 0
        &&& r->Ok_0.content_type() == "application/json"@
        &&& r->Ok_0.authorization() == bearer(access_token)
        &&& r->Ok_0.agent() == sent_agent(client.agent())
    }
}

/// One call in progress: the endpoints as they stood when it began, the
/// headers of its requests, and the endpoint that is tried now.
pub struct Failover {
    kind: CallKind,
    method: String,
    query_string: Option<String>,
    headers: RequestHeaders,
    endpoints: Vec<String>,
    index: usize,
}

impl Failover {
    #[verifier::type_invariant]
    spec fn well_formed(self) -> bool {
        self.index < self.endpoints@.len()
    }

    /// Which operation the call is.
    pub closed spec fn kind(self) -> CallKind {
        self.kind
    }

    /// The remote method.
    pub closed spec fn method(self) -> Seq<char> {
        self.method@
    }

    /// The query string, where there is one.
    pub closed spec fn query(self) -> Option<Seq<char>> {
        text_of(self.query_string)
    }

    /// The endpoints in the order in which the call tries them.
    pub closed spec fn order(self) -> Seq<Seq<char>> {
        texts(self.endpoints@)
    }

    /// The place of the endpoint that is tried now.
    pub closed spec fn index(self) -> int {
        self.index as int
    }

    /// The value of the `Authorization` header of every request.
    pub closed spec fn authorization(self) -> Seq<char> {
        self.headers.authorization@
    }

    /// The value of the `User-Agent` header of every request.
    pub closed spec fn agent(self) -> Seq<char> {
        self.headers.user_agent@
    }

    /// The value of the `Content-Type` header of every request.
    pub closed spec fn content_type(self) -> Seq<char> {
        self.headers.content_type@
    }

    /// The headers of every request of the call.
    pub fn headers(&self) -> (r: &RequestHeaders)
        ensures
            r.authorization@ == self.authorization(),
            r.user_agent@ == self.agent(),
            r.content_type@ == self.content_type(),
    {
        &self.headers
    }

    /// The address to send the request to now.
    pub fn url(&self) -> (r: String)
        ensures
            0 <= self.index() < self.order().len(),
            r@ == url_of(self.order()[self.index()], self.method(), self.query()),
    {
        proof {
            use_type_invariant(self);
        }
        let query = match &self.query_string {
            Some(q) => Some(q.as_str()),
            None => None,
        };
        UpstreamClient::build_url(self.endpoints[self.index].as_str(), self.method.as_str(), query)
    }

    /// Takes note of how the attempt at the current endpoint ended, and
    /// says what follows. Where the next endpoint is to be tried, it is
    /// the current one from now on.
    pub fn settle(&mut self, attempt: &Attempt) -> (r: Verdict)
        ensures
            r@ == verdict_of(old(self).kind(), old(self).order(), old(self).index(), *attempt),
            final(self).kind() == old(self).kind(),
            final(self).method() == old(self).method(),
            final(self).query() == old(self).query(),
            final(self).order() == old(self).order(),
            final(self).authorization() == old(self).authorization(),
            final(self).agent() == old(self).agent(),
            final(self).content_type() == old(self).content_type(),
            final(self).index() == if r@ is Advance {
                old(self).index() + 1
            } else {
                old(self).index()
            },
    {
        proof {
            use_type_invariant(&*self);
        }
        let count = self.endpoints.len();
        let has_next = self.index + 1 < count;
        match attempt {
            Attempt::Answered { status, status_text } => {
                if 200 <= *status && *status < 300 {
                    Verdict::Deliver {
                        promote: if self.index > 0 {
                            Some(
                                Promotion {
                                    place: self.index,
                                    endpoint: self.endpoints[self.index].clone(),
                                },
                            )
                        } else {
                            None
                        },
                    }
                } else if has_next && UpstreamClient::should_try_next_endpoint(*status) {
                    self.index = self.index + 1;
                    Verdict::Advance
                } else {
                    match self.kind {
                        CallKind::Invoke => Verdict::Deliver { promote: None },
                        CallKind::ListModels => {
                            let mut error = "Upstream error: ".to_owned();
                            error.append(status_text.as_str());
                            Verdict::Fail { error }
                        },
                    }
                }
            },
            Attempt::Failed { detail } => {
                if has_next {
                    self.index = self.index + 1;
                    Verdict::Advance
                } else {
                    let mut error = match self.kind {
                        CallKind::Invoke => "HTTP request failed at ".to_owned(),
                        CallKind::ListModels => "Request failed at ".to_owned(),
                    };
                    error.append(self.endpoints[self.index].as_str());
                    error.append(": ");
                    error.append(detail.as_str());
                    Verdict::Fail { error }
                }
            },
        }
    }
}

} // verus!
