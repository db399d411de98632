//! The usage monitor: what a response says of the tokens it used, and the
//! record that is logged of a request.

use vstd::prelude::*;
use vstd::slice::slice_subrange;
use crate::auth::AuthenticatedKey;
use crate::json::{json_of_bytes, json_of_text, parse_bytes, parse_text, Json};
use crate::text::{
    begins_with, chars_of, contains, cut, find, find_char, holds, index_of, line_ranges,
    lines_of, position, same_text, skip_leading, starts_with, string_of, text_of, trim_range,
    trimmed, utf8_text, without_leading,
};

verus! {

/// The token counts read from a response.
#[derive(Clone, Copy, Debug, PartialEq, Eq)]
pub struct TokenUsage {
    pub input_tokens: Option<u32>,
    pub output_tokens: Option<u32>,
}

/// The low 32 bits of `n`.
pub open spec fn low32(n: u64) -> u32 {
    (n % 0x1_0000_0000) as u32
}

/// The count that a member holds: the low 32 bits of its value, where the
/// member is there and is an integer from 0 to 2^64 - 1.
pub open spec fn reading(v: Option<Json>) -> Option<u32> {
    match v {
        Some(j) => match j.count() {
            Some(n) => Some(low32(n)),
            None => None,
        },
        None => None,
    }
}

/// The member called `first` where there is one, else the one called
/// `second`.
pub open spec fn either(usage: Json, first: Seq<char>, second: Seq<char>) -> Option<Json> {
    match usage.member(first) {
        Some(v) => Some(v),
        None => usage.member(second),
    }
}

/// The counts that a `usage` object gives. The input count is read from
/// `prompt_tokens`, or from `input_tokens` where that member is missing; the
/// output count from `completion_tokens`, or from `output_tokens`. Where
/// neither count can be read, `total_tokens` is taken for the output count.
pub open spec fn usage_of(usage: Json) -> TokenUsage {
    let input = reading(either(usage, "prompt_tokens"@, "input_tokens"@));
    let output = reading(either(usage, "completion_tokens"@, "output_tokens"@));
    if input is None && output is None {
        TokenUsage { input_tokens: None, output_tokens: reading(usage.member("total_tokens"@)) }
    } else {
        TokenUsage { input_tokens: input, output_tokens: output }
    }
}

/// The counts of the member `usage` of a document, where it has one.
pub open spec fn document_usage(doc: Json) -> Option<TokenUsage> {
    match doc.member("usage"@) {
        Some(u) => Some(usage_of(u)),
        None => None,
    }
}

/// The counts of a document that may have failed to parse: those of its
/// member `usage`, where there is a document and it has one.
pub open spec fn parsed_usage(doc: Option<Json>) -> Option<TokenUsage> {
    match doc {
        Some(d) => document_usage(d),
        None => None,
    }
}

/// The text of an event's payload: the line without the `data: ` at its
/// start, as often as it stands there, and without white space around it.
pub open spec fn payload_of(line: Seq<char>) -> Seq<char> {
    trimmed(without_leading(line, "data: "@))
}

/// Whether a line of an event stream may carry counts: it starts with
/// `data: ` and holds `"usage"`.
pub open spec fn is_usage_line(line: Seq<char>) -> bool {
    starts_with(line, "data: "@) && contains(line, "\"usage\""@)
}

/// The counts that one line of an event stream gives, where it carries any.
pub open spec fn line_usage(line: Seq<char>) -> Option<TokenUsage> {
    if is_usage_line(line) {
        match json_of_text(payload_of(line)) {
            Some(doc) => document_usage(doc),
            None => None,
        }
    } else {
        None
    }
}

/// The counts of the last of `lines` that carries any.
pub open spec fn last_usage(lines: Seq<Seq<char>>) -> Option<TokenUsage>
    decreases lines.len(),
{
    if lines.len() == 0 {
        None
    } else {
        match line_usage(lines.last()) {
            Some(u) => Some(u),
            None => last_usage(lines.drop_last()),
        }
    }
}

/// The counts that the observed end of an event stream gives: those of its
/// last line that carries any, where the bytes are well-formed UTF-8.
pub open spec fn tail_usage(tail: Seq<u8>) -> Option<TokenUsage> {
    if vstd::utf8::valid_utf8(tail) {
        last_usage(lines_of(vstd::utf8::decode_utf8(tail)))
    } else {
        None
    }
}

fn count_of(v: Option<&Json>) -> (r: Option<u32>)
    ensures
        r == reading(
            match v {
                Some(j) => Some(*j),
                None => None,
            },
        ),
{
    match v {
        Some(j) => match j.as_u64() {
            Some(n) => Some((n % 0x1_0000_0000) as u32),
            None => None,
        },
        None => None,
    }
}

fn member_of<'a>(usage: &'a Json, first: &str, second: &str) -> (r: Option<&'a Json>)
    ensures
        match r {
            Some(v) => either(*usage, first@, second@) == Some(*v),
            None => either(*usage, first@, second@) is None,
        },
{
    match usage.get(first) {
        Some(v) => Some(v),
        None => usage.get(second),
    }
}

impl TokenUsage {
    /// The counts that a `usage` object gives.
    pub fn of_usage(usage: &Json) -> (r: TokenUsage)
        ensures
            r == usage_of(*usage),
    {
        let input = count_of(member_of(usage, "prompt_tokens", "input_tokens"));
        let output = count_of(member_of(usage, "completion_tokens", "output_tokens"));
        if input.is_none() && output.is_none() {
            TokenUsage { input_tokens: None, output_tokens: count_of(usage.get("total_tokens")) }
        } else {
            TokenUsage { input_tokens: input, output_tokens: output }
        }
    }

    /// The counts of the member `usage` of a document, where it has one.
    pub fn of_document(doc: &Json) -> (r: Option<TokenUsage>)
        ensures
            r == document_usage(*doc),
    {
        match doc.get("usage") {
            Some(u) => Some(TokenUsage::of_usage(u)),
            None => None,
        }
    }

    /// The counts of a document that may have failed to parse.
    pub fn of_parsed(doc: &Option<Json>) -> (r: Option<TokenUsage>)
        ensures
            r == parsed_usage(*doc),
    {
        match doc {
            Some(d) => TokenUsage::of_document(d),
            None => None,
        }
    }

    /// The counts that the text of a buffered response gives, where it
    /// gives any.
    pub fn of_body(text: &str) -> (r: Option<TokenUsage>)
        ensures
            r == parsed_usage(json_of_text(text@)),
    {
        let doc = parse_text(text);
        TokenUsage::of_parsed(&doc)
    }

    /// The counts that one line of an event stream gives, once its payload
    /// has been parsed into `doc`. Of a line that cannot carry counts the
    /// payload is not looked at.
    pub fn of_line(line: &[char], doc: &Option<Json>) -> (r: Option<TokenUsage>)
        ensures
            r == if is_usage_line(line@) {
                match *doc {
                    Some(d) => document_usage(d),
                    None => None,
                }
            } else {
                None
            },
    {
        let prefix = chars_of("data: ");
        let marker = chars_of("\"usage\"");
        if begins_with(line, prefix.as_slice()) && holds(line, marker.as_slice()) {
            match doc {
                Some(d) => TokenUsage::of_document(d),
                None => None,
            }
        } else {
            None
        }
    }

    /// The counts that the observed end of an event stream gives, where it
    /// gives any.
    pub fn of_tail(tail: &[u8]) -> (r: Option<TokenUsage>)
        ensures
            r == tail_usage(tail@),
    {
        match utf8_text(tail) {
            None => None,
            Some(text) => {
                let cs = chars_of(text);
                let rs = line_ranges(cs.as_slice());
                let prefix = chars_of("data: ");
                let marker = chars_of("\"usage\"");
                let mut i: usize = rs.len();
                assert(lines_of(cs@).take(i as int) =~= lines_of(cs@));
                while i > 0
                    invariant
                        i <= rs@.len(),
                        prefix@ == "data: "@,
                        marker@ == "\"usage\""@,
                        vstd::utf8::valid_utf8(tail@),
                        cs@ == vstd::utf8::decode_utf8(tail@),
                        cut(cs@, rs@) == lines_of(cs@),
                        forall|k: int|
                            0 <= k < rs@.len() ==> (#[trigger] rs@[k]).0 <= rs@[k].1 <= cs@.len(),
                        last_usage(lines_of(cs@)) == last_usage(lines_of(cs@).take(i as int)),
                    decreases i,
                {
                    i -= 1;
                    let from = rs[i].0;
                    let to = rs[i].1;
                    let line = slice_subrange(cs.as_slice(), from, to);
                    proof {
                        let lines = lines_of(cs@).take(i + 1);
                        assert(lines.drop_last() =~= lines_of(cs@).take(i as int));
                    }
                    if begins_with(line, prefix.as_slice()) && holds(line, marker.as_slice()) {
                        let start = skip_leading(line, prefix.as_slice(), 0, line.len());
                        let (a, b) = trim_range(line, start, line.len());
                        let payload = string_of(line, a, b);
                        assert(line@.subrange(0, line@.len() as int) =~= line@);
                        let doc = parse_text(payload.as_str());
                        match TokenUsage::of_parsed(&doc) {
                            Some(u) => {
                                return Some(u);
                            },
                            None => {},
                        }
                    }
                }
                None
            },
        }
    }
}

/// How many bytes of the end of an event stream are kept for reading.
pub const TAIL_LIMIT: usize = 8192;

/// How many bytes of a request body are read for the record.
pub const REQUEST_BODY_LIMIT: usize = 1048576;

/// How many bytes of a buffered response are read for the record.
pub const RESPONSE_BODY_LIMIT: usize = 524288;

/// The last `limit` items of `s`; all of `s` where it has no more.
pub open spec fn tail_of(s: Seq<u8>, limit: int) -> Seq<u8> {
    if s.len() > limit {
        s.skip(s.len() - limit)
    } else {
        s
    }
}

/// All the bytes of `chunks`, one chunk after the other.
pub open spec fn joined(chunks: Seq<Seq<u8>>) -> Seq<u8>
    decreases chunks.len(),
{
    if chunks.len() == 0 {
        Seq::<u8>::empty()
    } else {
        joined(chunks.drop_last()) + chunks.last()
    }
}

/// The window after `chunks` have been observed one by one, starting from
/// `window`.
pub open spec fn observed(window: Seq<u8>, chunks: Seq<Seq<u8>>) -> Seq<u8>
    decreases chunks.len(),
{
    if chunks.len() == 0 {
        window
    } else {
        tail_of(observed(window, chunks.drop_last()) + chunks.last(), TAIL_LIMIT as int)
    }
}

/// To cut to the last `limit` bytes before more bytes come gives what
/// cutting afterwards alone gives.
pub proof fn lemma_tail_of_append(a: Seq<u8>, b: Seq<u8>, limit: int)
    requires
        0 <= limit,
    ensures
        tail_of(tail_of(a, limit) + b, limit) == tail_of(a + b, limit),
{
}

/// The window holds the last [`TAIL_LIMIT`] bytes of all that was observed:
/// observing chunk by chunk forgets nothing that the end of the stream as a
/// whole would hold.
pub proof fn lemma_window_is_tail_of_stream(chunks: Seq<Seq<u8>>)
    ensures
        observed(Seq::<u8>::empty(), chunks) == tail_of(joined(chunks), TAIL_LIMIT as int),
    decreases chunks.len(),
{
    if chunks.len() > 0 {
        lemma_window_is_tail_of_stream(chunks.drop_last());
        lemma_tail_of_append(joined(chunks.drop_last()), chunks.last(), TAIL_LIMIT as int);
    }
}

/// The end of an event stream, as far as it is kept for reading.
pub struct TailWindow {
    bytes: Vec<u8>,
}

impl View for TailWindow {
    type V = Seq<u8>;

    closed spec fn view(&self) -> Seq<u8> {
        self.bytes@
    }
}

impl TailWindow {
    #[verifier::type_invariant]
    spec fn bounded(self) -> bool {
        self.bytes@.len() <= TAIL_LIMIT
    }

    /// A window that has seen nothing.
    pub fn new() -> (r: TailWindow)
        ensures
            r@ == Seq::<u8>::empty(),
    {
        TailWindow { bytes: Vec::new() }
    }

    /// The bytes in the window, at most [`TAIL_LIMIT`] of them.
    pub fn bytes(&self) -> (r: &[u8])
        ensures
            r@ == self@,
            r@.len() <= TAIL_LIMIT,
    {
        proof {
            use_type_invariant(self);
        }
        self.bytes.as_slice()
    }

    /// Takes note of one more chunk of the stream: the window then holds
    /// the last [`TAIL_LIMIT`] bytes of what it held followed by the chunk.
    pub fn observe(&mut self, chunk: &[u8])
        ensures
            final(self)@ == tail_of(old(self)@ + chunk@, TAIL_LIMIT as int),
            final(self)@.len() <= TAIL_LIMIT,
    {
        proof {
            use_type_invariant(&*self);
        }
        let n = chunk.len();
        let held = self.bytes.len();
        let mut kept: Vec<u8> = Vec::new();
        if n > TAIL_LIMIT {
            let mut i: usize = n - TAIL_LIMIT;
            while i < n
                invariant
                    n == chunk@.len(),
                    TAIL_LIMIT < n,
                    n - TAIL_LIMIT <= i <= n,
                    kept@ == chunk@.subrange(n - TAIL_LIMIT, i as int),
                decreases n - i,
            {
                kept.push(chunk[i]);
                i += 1;
            }
        } else {
            let total = held + n;
            let first = if total > TAIL_LIMIT {
                total - TAIL_LIMIT
            } else {
                0
            };
            let ghost all = self.bytes@ + chunk@;
            let mut i: usize = first;
            while i < total
                invariant
                    n == chunk@.len(),
                    held == self.bytes@.len(),
                    total == held + n,
                    all == self.bytes@ + chunk@,
                    first <= i <= total,
                    kept@ == all.subrange(first as int, i as int),
                decreases total - i,
            {
                let b = if i < held {
                    self.bytes[i]
                } else {
                    chunk[i - held]
                };
                kept.push(b);
                i += 1;
            }
        }
        self.bytes = kept;
    }

    /// Takes note of a chunk and hands it on for the caller: the chunk that
    /// goes out is the chunk that came in.
    pub fn relay(&mut self, chunk: Vec<u8>) -> (out: Vec<u8>)
        ensures
            out@ == chunk@,
            final(self)@ == tail_of(old(self)@ + chunk@, TAIL_LIMIT as int),
            final(self)@.len() <= TAIL_LIMIT,
    {
        self.observe(chunk.as_slice());
        chunk
    }
}

/// What is logged of one request.
#[derive(Clone, Debug)]
pub struct ProxyRequestLog {
    pub id: String,
    pub timestamp: i64,
    pub method: String,
    pub url: String,
    pub status: u16,
    pub duration: u64,
    pub model: Option<String>,
    pub error: Option<String>,
    pub request_body: Option<String>,
    pub response_body: Option<String>,
    pub input_tokens: Option<u32>,
    pub output_tokens: Option<u32>,
}

/// What a [`ProxyRequestLog`] holds, as text and numbers.
pub struct RequestLogView {
    pub id: Seq<char>,
    pub timestamp: i64,
    pub method: Seq<char>,
    pub url: Seq<char>,
    pub status: u16,
    pub duration: u64,
    pub model: Option<Seq<char>>,
    pub error: Option<Seq<char>>,
    pub request_body: Option<Seq<char>>,
    pub response_body: Option<Seq<char>>,
    pub input_tokens: Option<u32>,
    pub output_tokens: Option<u32>,
}

impl View for ProxyRequestLog {
    type V = RequestLogView;

    open spec fn view(&self) -> RequestLogView {
        RequestLogView {
            id: self.id@,
            timestamp: self.timestamp,
            method: self.method@,
            url: self.url@,
            status: self.status,
            duration: self.duration,
            model: text_of(self.model),
            error: text_of(self.error),
            request_body: text_of(self.request_body),
            response_body: text_of(self.response_body),
            input_tokens: self.input_tokens,
            output_tokens: self.output_tokens,
        }
    }
}

/// The text that stands for a body: what its bytes encode where they are
/// well-formed UTF-8, and `marker` where they are not.
pub open spec fn body_text(bytes: Seq<u8>, marker: Seq<char>) -> Seq<char> {
    if vstd::utf8::valid_utf8(bytes) {
        vstd::utf8::decode_utf8(bytes)
    } else {
        marker
    }
}

/// Whether a status reports a failure: 400 and above.
pub open spec fn is_failure(status: u16) -> bool {
    status >= 400
}

/// The record with the counts that were found; with the counts it had
/// where none were found.
pub open spec fn with_counts(log: RequestLogView, found: Option<TokenUsage>) -> RequestLogView {
    match found {
        Some(u) => RequestLogView {
            input_tokens: u.input_tokens,
            output_tokens: u.output_tokens,
            ..log
        },
        None => log,
    }
}

/// The record of a response that came as an event stream whose observed
/// end is `tail`.
pub open spec fn stream_record(log: RequestLogView, tail: Seq<u8>) -> RequestLogView {
    RequestLogView {
        response_body: Some("[Stream Data]"@),
        error: if is_failure(log.status) {
            Some("Stream Error or Failed"@)
        } else {
            log.error
        },
        ..with_counts(log, tail_usage(tail))
    }
}

/// The counts of a buffered body: those that its text gives, where the
/// bytes are well-formed UTF-8.
pub open spec fn body_usage(body: Seq<u8>) -> Option<TokenUsage> {
    if vstd::utf8::valid_utf8(body) {
        parsed_usage(json_of_text(vstd::utf8::decode_utf8(body)))
    } else {
        None
    }
}

/// The record of a response whose body was read in full. Of a failure the
/// text of the body is the error as well.
pub open spec fn body_record(log: RequestLogView, body: Seq<u8>) -> RequestLogView {
    let text = body_text(body, "[Binary Response Data]"@);
    RequestLogView {
        response_body: Some(text),
        error: if is_failure(log.status) {
            Some(text)
        } else {
            log.error
        },
        ..with_counts(log, body_usage(body))
    }
}

/// The record of a response whose body was larger than could be read.
pub open spec fn oversized_record(log: RequestLogView) -> RequestLogView {
    RequestLogView { response_body: Some("[Response too large]"@), ..log }
}

/// The record of a response of another content type: the type in square
/// brackets stands for the body.
pub open spec fn other_record(log: RequestLogView, content_type: Seq<char>) -> RequestLogView {
    RequestLogView { response_body: Some("["@ + content_type + "]"@), ..log }
}

impl ProxyRequestLog {
    /// The record as it stands when the response has come and nothing of
    /// its body has been looked at.
    pub fn new(
        id: String,
        timestamp: i64,
        method: String,
        url: String,
        status: u16,
        duration: u64,
        model: Option<String>,
        request_body: Option<String>,
    ) -> (r: ProxyRequestLog)
        ensures
            r@ == (RequestLogView {
                id: id@,
                timestamp,
                method: method@,
                url: url@,
                status,
                duration,
                model: text_of(model),
                error: None,
                request_body: text_of(request_body),
                response_body: None,
                input_tokens: None,
                output_tokens: None,
            }),
    {
        ProxyRequestLog {
            id,
            timestamp,
            method,
            url,
            status,
            duration,
            model,
            error: None,
            request_body,
            response_body: None,
            input_tokens: None,
            output_tokens: None,
        }
    }

    /// Completes the record of an event stream once the stream has ended.
    pub fn with_stream(self, tail: &[u8]) -> (r: ProxyRequestLog)
        ensures
            r@ == stream_record(self@, tail@),
    {
        let mut log = self;
        log.response_body = Some("[Stream Data]".to_owned());
        match TokenUsage::of_tail(tail) {
            Some(usage) => {
                log.input_tokens = usage.input_tokens;
                log.output_tokens = usage.output_tokens;
            },
            None => {},
        }
        if log.status >= 400 {
            log.error = Some("Stream Error or Failed".to_owned());
        }
        log
    }

    /// Completes the record of a response whose body was read in full.
    pub fn with_body(self, body: &[u8]) -> (r: ProxyRequestLog)
        ensures
            r@ == body_record(self@, body@),
    {
        let mut log = self;
        match utf8_text(body) {
            Some(text) => {
                match TokenUsage::of_body(text) {
                    Some(usage) => {
                        log.input_tokens = usage.input_tokens;
                        log.output_tokens = usage.output_tokens;
                    },
                    None => {},
                }
                log.response_body = Some(text.to_owned());
                if log.status >= 400 {
                    log.error = Some(text.to_owned());
                }
            },
            None => {
                log.response_body = Some("[Binary Response Data]".to_owned());
                if log.status >= 400 {
                    log.error = Some("[Binary Response Data]".to_owned());
                }
            },
        }
        log
    }

    /// Completes the record of a response whose body was larger than
    /// [`RESPONSE_BODY_LIMIT`].
    pub fn with_oversized(self) -> (r: ProxyRequestLog)
        ensures
            r@ == oversized_record(self@),
    {
        let mut log = self;
        log.response_body = Some("[Response too large]".to_owned());
        log
    }

    /// Completes the record of a response of another content type.
    pub fn with_other(self, content_type: &str) -> (r: ProxyRequestLog)
        ensures
            r@ == other_record(self@, content_type@),
    {
        let mut log = self;
        let mut text = "[".to_owned();
        text.append(content_type);
        text.append("]");
        log.response_body = Some(text);
        log
    }
}

/// Whether usage is metered for a request: its URI lies under `/v1/` and
/// does not name `event_logging`.
pub open spec fn is_metered(uri: Seq<char>) -> bool {
    starts_with(uri, "/v1/"@) && !contains(uri, "event_logging"@)
}

/// Whether usage is metered for a request to `uri`.
pub fn is_api_request(uri: &str) -> (r: bool)
    ensures
        r == is_metered(uri@),
{
    let cs = chars_of(uri);
    let prefix = chars_of("/v1/");
    let heartbeat = chars_of("event_logging");
    begins_with(cs.as_slice(), prefix.as_slice()) && !holds(cs.as_slice(), heartbeat.as_slice())
}

/// What the monitor does with a request.
#[derive(Clone, Copy, Debug, PartialEq, Eq)]
pub enum MonitorPlan {
    /// The request goes on unobserved: nothing is logged of it, and it has
    /// no usage to record.
    PassThrough,
    /// The monitor is switched off, and the request is metered: its
    /// response is looked at as it would be with the monitor on, for the
    /// usage record alone. Nothing is logged.
    Meter,
    /// The request is observed and logged, and its usage recorded;
    /// `capture_body` says whether its body is read for the record.
    Observe { capture_body: bool },
}

/// What the monitor does with a request, by whether it is switched on, the
/// URI, the method, and whether the request was attributed to a key.
///
/// Switched on, it observes every request but the heartbeats, and reads
/// the body of a `POST`. Switched off, it still looks at the response of
/// every request that has usage to record, one that was attributed to a
/// key and whose URI is metered.
pub open spec fn plan_of(enabled: bool, uri: Seq<char>, method: Seq<char>, attributed: bool) -> MonitorPlan {
    if enabled {
        if contains(uri, "event_logging"@) {
            MonitorPlan::PassThrough
        } else {
            MonitorPlan::Observe { capture_body: method == "POST"@ }
        }
    } else if attributed && is_metered(uri) {
        MonitorPlan::Meter
    } else {
        MonitorPlan::PassThrough
    }
}

/// A request that has usage to record never goes on unobserved, whether
/// the monitor is switched on or off; and one that goes on unobserved has
/// none.
pub proof fn lemma_metered_requests_are_observed(
    enabled: bool,
    uri: Seq<char>,
    method: Seq<char>,
    attributed: bool,
)
    ensures
        attributed && is_metered(uri) ==> !(plan_of(enabled, uri, method, attributed)
            is PassThrough),
        !enabled ==> (plan_of(enabled, uri, method, attributed) is Meter <==> attributed
            && is_metered(uri)),
        plan_of(enabled, uri, method, attributed) is Meter ==> !enabled,
        plan_of(enabled, uri, method, attributed) is Observe ==> enabled,
{
}

/// What the monitor does with a request. `identity` is the key that the
/// request was attributed to, if any.
pub fn monitor_middleware(
    enabled: bool,
    uri: &str,
    method: &str,
    identity: Option<&AuthenticatedKey>,
) -> (r: MonitorPlan)
    ensures
        r == plan_of(enabled, uri@, method@, identity is Some),
{
    if enabled {
        let cs = chars_of(uri);
        let heartbeat = chars_of("event_logging");
        if holds(cs.as_slice(), heartbeat.as_slice()) {
            MonitorPlan::PassThrough
        } else {
            MonitorPlan::Observe { capture_body: same_text(method, "POST") }
        }
    } else if identity.is_some() && is_api_request(uri) {
        MonitorPlan::Meter
    } else {
        MonitorPlan::PassThrough
    }
}

/// The model that a URI names: what stands behind the first
/// `/v1beta/models/` in it, up to the next colon, the next
/// `/v1beta/models/` or the end.
pub open spec fn url_model(uri: Seq<char>) -> Option<Seq<char>> {
    let p = "/v1beta/models/"@;
    if contains(uri, p) {
        let rest = uri.skip(index_of(uri, p, 0) + p.len());
        let segment = rest.take(index_of(rest, p, 0));
        Some(segment.take(position(segment, ':')))
    } else {
        None
    }
}

/// The model that a URI names, where it names one.
pub fn model_from_url(uri: &str) -> (r: Option<String>)
    ensures
        text_of(r) == url_model(uri@),
{
    let cs = chars_of(uri);
    let p = chars_of("/v1beta/models/");
    if !holds(cs.as_slice(), p.as_slice()) {
        return None;
    }
    let at = find(cs.as_slice(), p.as_slice(), 0);
    let len = cs.len();
    proof {
        crate::text::lemma_index_of_is_first(cs@, p@, 0);
        crate::text::lemma_contains_index_of(cs@, p@);
    }
    let rest = slice_subrange(cs.as_slice(), at + p.len(), len);
    let end = find(rest, p.as_slice(), 0);
    proof {
        crate::text::lemma_index_of_is_first(rest@, p@, 0);
    }
    let colon = find_char(rest, ':', 0, end);
    let model = string_of(rest, 0, colon);
    proof {
        let tail = cs@.skip(at + p@.len());
        let segment = tail.take(end as int);
        assert(rest@ =~= tail);
        assert(segment.take(colon as int) =~= rest@.subrange(0, colon as int));
    }
    Some(model)
}

/// The model that a parsed request body names: the text of its member
/// `model`.
pub open spec fn document_model(doc: Option<Json>) -> Option<Seq<char>> {
    match doc {
        Some(d) => match d.member("model"@) {
            Some(m) => m.text(),
            None => None,
        },
        None => None,
    }
}

/// The model that a parsed request body names, where it names one.
pub fn model_of_document(doc: &Option<Json>) -> (r: Option<String>)
    ensures
        text_of(r) == document_model(*doc),
{
    match doc {
        Some(d) => match d.get("model") {
            Some(m) => match m.as_str() {
                Some(name) => Some(name.to_owned()),
                None => None,
            },
            None => None,
        },
        None => None,
    }
}

/// The model that a request body names, where it is a JSON document that
/// names one.
pub fn model_from_body(body: &[u8]) -> (r: Option<String>)
    ensures
        text_of(r) == document_model(json_of_bytes(body@)),
{
    let doc = parse_bytes(body);
    model_of_document(&doc)
}

/// What is kept of a request before it goes on.
#[derive(Clone, Debug)]
pub struct RequestCapture {
    pub model: Option<String>,
    pub request_body: Option<String>,
}

/// The model of a request: the one its URI names, else the one its body
/// names.
pub open spec fn request_model(uri: Seq<char>, body: Option<Seq<u8>>) -> Option<Seq<char>> {
    match url_model(uri) {
        Some(m) => Some(m),
        None => match body {
            Some(b) => document_model(json_of_bytes(b)),
            None => None,
        },
    }
}

/// The text that is logged for a request body that was read.
pub open spec fn request_text(body: Option<Seq<u8>>) -> Option<Seq<char>> {
    match body {
        Some(b) => Some(body_text(b, "[Binary Request Data]"@)),
        None => None,
    }
}

/// The bytes of a body that may be missing.
pub open spec fn bytes_of(body: Option<&[u8]>) -> Option<Seq<u8>> {
    match body {
        Some(b) => Some(b@),
        None => None,
    }
}

/// What is kept of a request to `uri`. `body` holds the bytes of its body
/// where the body was read, which is done for a request that
/// [`monitor_middleware`] wants captured and whose body is no longer than
/// [`REQUEST_BODY_LIMIT`].
pub fn capture_request(uri: &str, body: Option<&[u8]>) -> (r: RequestCapture)
    ensures
        text_of(r.model) == request_model(uri@, bytes_of(body)),
        text_of(r.request_body) == request_text(bytes_of(body)),
{
    let named = model_from_url(uri);
    match body {
        Some(bytes) => {
            let model = match named {
                Some(m) => Some(m),
                None => model_from_body(bytes),
            };
            let text = match utf8_text(bytes) {
                Some(t) => t.to_owned(),
                None => "[Binary Request Data]".to_owned(),
            };
            RequestCapture { model, request_body: Some(text) }
        },
        None => RequestCapture { model: named, request_body: None },
    }
}

/// How the body of a response is looked at.
#[derive(Clone, Copy, Debug, PartialEq, Eq)]
pub enum ContentKind {
    /// An event stream: it is handed on while its end is observed.
    EventStream,
    /// Text or JSON: it is read in full, then handed on.
    Buffered,
    /// Anything else: it is handed on unread.
    Other,
}

/// How the body of a response is looked at, by its content type.
pub open spec fn content_kind(content_type: Seq<char>) -> ContentKind {
    if contains(content_type, "text/event-stream"@) {
        ContentKind::EventStream
    } else if contains(content_type, "application/json"@) || contains(content_type, "text/"@) {
        ContentKind::Buffered
    } else {
        ContentKind::Other
    }
}

impl ContentKind {
    /// How the body of a response with this content type is looked at.
    pub fn of(content_type: &str) -> (r: ContentKind)
        ensures
            r == content_kind(content_type@),
    {
        let cs = chars_of(content_type);
        let stream = chars_of("text/event-stream");
        let json = chars_of("application/json");
        let text = chars_of("text/");
        if holds(cs.as_slice(), stream.as_slice()) {
            ContentKind::EventStream
        } else if holds(cs.as_slice(), json.as_slice()) || holds(cs.as_slice(), text.as_slice()) {
            ContentKind::Buffered
        } else {
            ContentKind::Other
        }
    }
}

/// What is recorded against a key for one request.
#[derive(Clone, Debug)]
pub struct UsageRecord {
    pub key: String,
    pub success: bool,
    pub input_tokens: Option<u32>,
    pub output_tokens: Option<u32>,
}

/// What a [`UsageRecord`] holds, with the key as text.
pub struct UsageRecordView {
    pub key: Seq<char>,
    pub success: bool,
    pub input_tokens: Option<u32>,
    pub output_tokens: Option<u32>,
}

impl View for UsageRecord {
    type V = UsageRecordView;

    open spec fn view(&self) -> UsageRecordView {
        UsageRecordView {
            key: self.key@,
            success: self.success,
            input_tokens: self.input_tokens,
            output_tokens: self.output_tokens,
        }
    }
}

/// What a usage record that may be missing holds.
pub open spec fn record_of(r: Option<UsageRecord>) -> Option<UsageRecordView> {
    match r {
        Some(u) => Some(u@),
        None => None,
    }
}

/// The usage to record for a request: one record against the key that the
/// request was attributed to, where it was attributed to one and its URI
/// is metered.
pub open spec fn usage_entry(
    uri: Seq<char>,
    key: Option<Seq<char>>,
    success: bool,
    input_tokens: Option<u32>,
    output_tokens: Option<u32>,
) -> Option<UsageRecordView> {
    match key {
        Some(k) => if is_metered(uri) {
            Some(UsageRecordView { key: k, success, input_tokens, output_tokens })
        } else {
            None
        },
        None => None,
    }
}

/// The key of an identity that may be missing.
pub open spec fn key_of(identity: Option<&AuthenticatedKey>) -> Option<Seq<char>> {
    match identity {
        Some(k) => Some(k.key@),
        None => None,
    }
}

/// The counts that were found; none where none were found.
pub open spec fn counts_of(found: Option<TokenUsage>) -> TokenUsage {
    match found {
        Some(u) => u,
        None => TokenUsage { input_tokens: None, output_tokens: None },
    }
}

/// The usage to record for a response that came as an event stream whose
/// observed end is `tail`: success unless the status reports a failure,
/// and the counts that the end of the stream gives.
pub open spec fn stream_entry(
    uri: Seq<char>,
    key: Option<Seq<char>>,
    status: u16,
    tail: Seq<u8>,
) -> Option<UsageRecordView> {
    usage_entry(
        uri,
        key,
        !is_failure(status),
        counts_of(tail_usage(tail)).input_tokens,
        counts_of(tail_usage(tail)).output_tokens,
    )
}

/// The usage to record for a response whose body was read in full: success
/// unless the status reports a failure, and the counts that the body
/// gives.
pub open spec fn body_entry(
    uri: Seq<char>,
    key: Option<Seq<char>>,
    status: u16,
    body: Seq<u8>,
) -> Option<UsageRecordView> {
    usage_entry(
        uri,
        key,
        !is_failure(status),
        counts_of(body_usage(body)).input_tokens,
        counts_of(body_usage(body)).output_tokens,
    )
}

/// The usage to record for a response of another content type: success
/// unless the status reports a failure, and no counts.
pub open spec fn other_entry(uri: Seq<char>, key: Option<Seq<char>>, status: u16) -> Option<
    UsageRecordView,
> {
    usage_entry(uri, key, !is_failure(status), None, None)
}

/// The usage of a request as its record shows it: success unless the
/// status reports a failure, and the counts of the record.
pub open spec fn logged_entry(key: Option<Seq<char>>, log: RequestLogView) -> Option<
    UsageRecordView,
> {
    usage_entry(log.url, key, !is_failure(log.status), log.input_tokens, log.output_tokens)
}

/// Metering does not depend on logging: what is recorded of a response
/// with the monitor switched off is what the completed record of the same
/// response shows with the monitor switched on. `log` is the record as it
/// stands before the response is looked at, without counts.
pub proof fn lemma_metering_does_not_depend_on_logging(
    key: Option<Seq<char>>,
    log: RequestLogView,
    tail: Seq<u8>,
    body: Seq<u8>,
    content_type: Seq<char>,
)
    requires
        log.input_tokens is None,
        log.output_tokens is None,
    ensures
        stream_entry(log.url, key, log.status, tail) == logged_entry(key, stream_record(log, tail)),
        body_entry(log.url, key, log.status, body) == logged_entry(key, body_record(log, body)),
        other_entry(log.url, key, log.status) == logged_entry(key, other_record(log, content_type)),
{
}

/// Usage is recorded for a request exactly where it was attributed to a
/// key and its URI is metered, and then against the key of that identity,
/// with the outcome and the counts as given.
pub proof fn lemma_usage_goes_to_the_attributed_key(
    uri: Seq<char>,
    identity: Option<&AuthenticatedKey>,
    success: bool,
    input_tokens: Option<u32>,
    output_tokens: Option<u32>,
)
    ensures
        usage_entry(uri, key_of(identity), success, input_tokens, output_tokens) is Some <==> (
        identity is Some && is_metered(uri)),
        usage_entry(uri, key_of(identity), success, input_tokens, output_tokens) matches Some(r)
            ==> r.key == identity->0.key@ && r.success == success && r.input_tokens
            == input_tokens && r.output_tokens == output_tokens,
{
}

impl UsageRecord {
    /// The usage to record for a request.
    pub fn entry(
        uri: &str,
        identity: Option<&AuthenticatedKey>,
        success: bool,
        input_tokens: Option<u32>,
        output_tokens: Option<u32>,
    ) -> (r: Option<UsageRecord>)
        ensures
            record_of(r) == usage_entry(uri@, key_of(identity), success, input_tokens, output_tokens),
    {
        match identity {
            Some(k) => {
                if is_api_request(uri) {
                    Some(UsageRecord { key: k.key.clone(), success, input_tokens, output_tokens })
                } else {
                    None
                }
            },
            None => None,
        }
    }

    /// The usage to record for a response that came as an event stream,
    /// once the stream has ended.
    pub fn of_stream(uri: &str, identity: Option<&AuthenticatedKey>, status: u16, tail: &[u8]) -> (r:
        Option<UsageRecord>)
        ensures
            record_of(r) == stream_entry(uri@, key_of(identity), status, tail@),
    {
        match TokenUsage::of_tail(tail) {
            Some(u) => UsageRecord::entry(
                uri,
                identity,
                status < 400,
                u.input_tokens,
                u.output_tokens,
            ),
            None => UsageRecord::entry(uri, identity, status < 400, None, None),
        }
    }

    /// The usage to record for a response whose body was read in full.
    pub fn of_body(uri: &str, identity: Option<&AuthenticatedKey>, status: u16, body: &[u8]) -> (r:
        Option<UsageRecord>)
        ensures
            record_of(r) == body_entry(uri@, key_of(identity), status, body@),
    {
        let found = match utf8_text(body) {
            Some(text) => TokenUsage::of_body(text),
            None => None,
        };
        match found {
            Some(u) => UsageRecord::entry(
                uri,
                identity,
                status < 400,
                u.input_tokens,
                u.output_tokens,
            ),
            None => UsageRecord::entry(uri, identity, status < 400, None, None),
        }
    }

    /// The usage to record for a response of another content type.
    pub fn of_other(uri: &str, identity: Option<&AuthenticatedKey>, status: u16) -> (r: Option<
        UsageRecord,
    >)
        ensures
            record_of(r) == other_entry(uri@, key_of(identity), status),
    {
        UsageRecord::entry(uri, identity, status < 400, None, None)
    }

    /// The usage to record for a request whose record is complete: success
    /// unless the status reports a failure, and the counts of the record.
    pub fn logged(identity: Option<&AuthenticatedKey>, log: &ProxyRequestLog) -> (r: Option<
        UsageRecord,
    >)
        ensures
            record_of(r) == logged_entry(key_of(identity), log@),
    {
        UsageRecord::entry(
            log.url.as_str(),
            identity,
            log.status < 400,
            log.input_tokens,
            log.output_tokens,
        )
    }

    /// The usage to record for a response whose body was larger than could
    /// be read: a failure, and no counts.
    pub fn oversized(uri: &str, identity: Option<&AuthenticatedKey>) -> (r: Option<UsageRecord>)
        ensures
            record_of(r) == usage_entry(uri@, key_of(identity), false, None, None),
    {
        UsageRecord::entry(uri, identity, false, None, None)
    }
}

} // verus!
