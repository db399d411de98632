use antiproxy::auth::AuthenticatedKey;
use antiproxy::json::Json;
use antiproxy::monitor::{
    capture_request, is_api_request, model_from_body, model_from_url, model_of_document,
    monitor_middleware, ContentKind, MonitorPlan, ProxyRequestLog, TailWindow, TokenUsage,
    UsageRecord, REQUEST_BODY_LIMIT, RESPONSE_BODY_LIMIT, TAIL_LIMIT,
};

fn object(members: Vec<(&str, Json)>) -> Json {
    Json::Object(members.into_iter().map(|(k, v)| (k.to_string(), v)).collect())
}

fn count(n: u64) -> Json {
    Json::Number(Some(n))
}

fn usage(input: Option<u32>, output: Option<u32>) -> TokenUsage {
    TokenUsage { input_tokens: input, output_tokens: output }
}

fn log(status: u16, url: &str) -> ProxyRequestLog {
    ProxyRequestLog::new(
        "id-1".to_string(),
        1_700_000_000_000,
        "POST".to_string(),
        url.to_string(),
        status,
        12,
        Some("gemini-pro".to_string()),
        Some("{}".to_string()),
    )
}

fn identity(key: &str) -> AuthenticatedKey {
    AuthenticatedKey { key: key.to_string(), key_id: "k1".to_string(), key_name: "first".to_string() }
}

#[test]
fn limits_are_as_documented() {
    assert_eq!(TAIL_LIMIT, 8 * 1024);
    assert_eq!(REQUEST_BODY_LIMIT, 1024 * 1024);
    assert_eq!(RESPONSE_BODY_LIMIT, 512 * 1024);
}

#[test]
fn usage_prefers_prompt_and_completion_counts() {
    let u = object(vec![
        ("prompt_tokens", count(3)),
        ("input_tokens", count(30)),
        ("completion_tokens", count(4)),
        ("output_tokens", count(40)),
        ("total_tokens", count(7)),
    ]);
    assert_eq!(TokenUsage::of_usage(&u), usage(Some(3), Some(4)));
}

#[test]
fn usage_falls_back_to_input_and_output_counts() {
    let u = object(vec![("input_tokens", count(30)), ("output_tokens", count(40))]);
    assert_eq!(TokenUsage::of_usage(&u), usage(Some(30), Some(40)));
    let only_input = object(vec![("input_tokens", count(30)), ("total_tokens", count(99))]);
    assert_eq!(TokenUsage::of_usage(&only_input), usage(Some(30), None));
    let only_output = object(vec![("completion_tokens", count(9)), ("total_tokens", count(99))]);
    assert_eq!(TokenUsage::of_usage(&only_output), usage(None, Some(9)));
}

#[test]
fn usage_takes_the_total_for_the_output_where_no_count_can_be_read() {
    let u = object(vec![("total_tokens", count(42))]);
    assert_eq!(TokenUsage::of_usage(&u), usage(None, Some(42)));
    assert_eq!(TokenUsage::of_usage(&object(vec![])), usage(None, None));
    assert_eq!(TokenUsage::of_usage(&Json::Null), usage(None, None));
    assert_eq!(TokenUsage::of_usage(&count(5)), usage(None, None));
}

#[test]
fn a_member_that_is_no_count_hides_its_alternative() {
    let u = object(vec![
        ("prompt_tokens", Json::Text("3".to_string())),
        ("input_tokens", count(30)),
        ("total_tokens", count(50)),
    ]);
    assert_eq!(TokenUsage::of_usage(&u), usage(None, Some(50)));
    let v = object(vec![
        ("prompt_tokens", Json::Null),
        ("input_tokens", count(30)),
        ("output_tokens", count(1)),
    ]);
    assert_eq!(TokenUsage::of_usage(&v), usage(None, Some(1)));
}

#[test]
fn counts_keep_their_low_32_bits() {
    let u = object(vec![
        ("prompt_tokens", count(4_294_967_296 + 5)),
        ("completion_tokens", count(u64::MAX)),
    ]);
    assert_eq!(TokenUsage::of_usage(&u), usage(Some(5), Some(u32::MAX)));
    let edge = object(vec![("prompt_tokens", count(4_294_967_295)), ("output_tokens", count(4_294_967_296))]);
    assert_eq!(TokenUsage::of_usage(&edge), usage(Some(u32::MAX), Some(0)));
}

#[test]
fn document_usage_needs_the_member() {
    let doc = object(vec![("usage", object(vec![("total_tokens", count(42))]))]);
    assert_eq!(TokenUsage::of_document(&doc), Some(usage(None, Some(42))));
    assert_eq!(TokenUsage::of_document(&object(vec![("other", count(1))])), None);
    assert_eq!(TokenUsage::of_document(&Json::List(vec![])), None);
    let odd = object(vec![("usage", Json::Text("none".to_string()))]);
    assert_eq!(TokenUsage::of_document(&odd), Some(usage(None, None)));
    assert_eq!(TokenUsage::of_parsed(&None), None);
    assert_eq!(TokenUsage::of_parsed(&Some(doc)), Some(usage(None, Some(42))));
}

#[test]
fn body_usage_is_read_from_json_text() {
    assert_eq!(TokenUsage::of_body("{\"usage\":{\"total_tokens\":42}}"), Some(usage(None, Some(42))));
    assert_eq!(
        TokenUsage::of_body(" { \"usage\" : { \"prompt_tokens\" : 7, \"completion_tokens\" : 11 } } "),
        Some(usage(Some(7), Some(11)))
    );
    assert_eq!(
        TokenUsage::of_body("{\"id\":\"x\",\"usage\":{\"input_tokens\":1,\"output_tokens\":2},\"z\":[1,2]}"),
        Some(usage(Some(1), Some(2)))
    );
    assert_eq!(TokenUsage::of_body("{\"usage\":{\"total_tokens\":42}"), None);
    assert_eq!(TokenUsage::of_body("not json"), None);
    assert_eq!(TokenUsage::of_body(""), None);
    assert_eq!(TokenUsage::of_body("{\"model\":\"m\"}"), None);
    assert_eq!(TokenUsage::of_body("[{\"usage\":{\"total_tokens\":42}}]"), None);
}

#[test]
fn body_usage_reads_whole_non_negative_numbers_only() {
    assert_eq!(TokenUsage::of_body("{\"usage\":{\"prompt_tokens\":-1,\"completion_tokens\":2}}"), Some(usage(None, Some(2))));
    assert_eq!(TokenUsage::of_body("{\"usage\":{\"prompt_tokens\":1.5,\"total_tokens\":9}}"), Some(usage(None, Some(9))));
    assert_eq!(TokenUsage::of_body("{\"usage\":{\"prompt_tokens\":1.0}}"), Some(usage(None, None)));
    assert_eq!(TokenUsage::of_body("{\"usage\":{\"prompt_tokens\":\"12\"}}"), Some(usage(None, None)));
    assert_eq!(
        TokenUsage::of_body("{\"usage\":{\"prompt_tokens\":18446744073709551615}}"),
        Some(usage(Some(u32::MAX), None))
    );
    assert_eq!(TokenUsage::of_body("{\"usage\":{\"prompt_tokens\":4294967301}}"), Some(usage(Some(5), None)));
}

#[test]
fn body_usage_takes_the_last_of_repeated_members() {
    assert_eq!(
        TokenUsage::of_body("{\"usage\":{\"total_tokens\":1},\"usage\":{\"total_tokens\":2}}"),
        Some(usage(None, Some(2)))
    );
}

#[test]
fn tail_usage_reads_the_last_line_that_carries_counts() {
    let tail = b"data: {\"usage\":{\"total_tokens\":1}}\n\ndata: {\"usage\":{\"prompt_tokens\":5,\"completion_tokens\":6}}\n\ndata: [DONE]\n\n";
    assert_eq!(TokenUsage::of_tail(tail), Some(usage(Some(5), Some(6))));
}

#[test]
fn tail_usage_passes_over_lines_that_do_not_parse() {
    let tail = b"data: {\"usage\":{\"total_tokens\":3}}\ndata: {\"usage\": broken\ndata: {\"x\":\"\\\"usage\\\"\"}\n";
    assert_eq!(TokenUsage::of_tail(tail), Some(usage(None, Some(3))));
}

#[test]
fn tail_usage_needs_the_prefix_and_the_marker() {
    assert_eq!(TokenUsage::of_tail(b"{\"usage\":{\"total_tokens\":3}}\n"), None);
    assert_eq!(TokenUsage::of_tail(b"data:{\"usage\":{\"total_tokens\":3}}\n"), None);
    assert_eq!(TokenUsage::of_tail(b" data: {\"usage\":{\"total_tokens\":3}}\n"), None);
    assert_eq!(TokenUsage::of_tail(b"data: {\"Usage\":{\"total_tokens\":3}}\n"), None);
    assert_eq!(TokenUsage::of_tail(b"event: done\n"), None);
    assert_eq!(TokenUsage::of_tail(b""), None);
    assert_eq!(TokenUsage::of_tail(b"data: {\"usage\":{\"total_tokens\":3}}"), Some(usage(None, Some(3))));
}

#[test]
fn tail_usage_takes_repeated_prefixes_and_white_space_away() {
    assert_eq!(
        TokenUsage::of_tail(b"data: data: data:  \t{\"usage\":{\"total_tokens\":8}} \r\n"),
        Some(usage(None, Some(8)))
    );
    let odd = "data: \u{a0}\u{3000}{\"usage\":{\"total_tokens\":9}}\u{2003}\n";
    assert_eq!(TokenUsage::of_tail(odd.as_bytes()), Some(usage(None, Some(9))));
}

#[test]
fn tail_usage_of_a_line_whose_usage_is_empty_stops_the_search() {
    let tail = b"data: {\"usage\":{\"total_tokens\":3}}\ndata: {\"usage\":{}}\n";
    assert_eq!(TokenUsage::of_tail(tail), Some(usage(None, None)));
}

#[test]
fn tail_usage_of_bytes_that_are_no_text_is_nothing() {
    let mut tail = b"data: {\"usage\":{\"total_tokens\":3}}\n".to_vec();
    tail.push(0xff);
    assert_eq!(TokenUsage::of_tail(&tail), None);
    let mut cut = vec![0x82, 0xac];
    cut.extend_from_slice(b"\ndata: {\"usage\":{\"total_tokens\":3}}\n");
    assert_eq!(TokenUsage::of_tail(&cut), None);
}

#[test]
fn of_line_reads_a_parsed_payload() {
    let line: Vec<char> = "data: {\"usage\":{\"total_tokens\":3}}".chars().collect();
    let doc = Some(object(vec![("usage", object(vec![("total_tokens", count(3))]))]));
    assert_eq!(TokenUsage::of_line(&line, &doc), Some(usage(None, Some(3))));
    assert_eq!(TokenUsage::of_line(&line, &None), None);
    let plain: Vec<char> = "data: {\"x\":1}".chars().collect();
    assert_eq!(TokenUsage::of_line(&plain, &doc), None);
    let bare: Vec<char> = "{\"usage\":{}}".chars().collect();
    assert_eq!(TokenUsage::of_line(&bare, &doc), None);
}

#[test]
fn window_keeps_the_last_bytes() {
    let mut w = TailWindow::new();
    assert_eq!(w.bytes(), b"");
    w.observe(b"abc");
    w.observe(b"");
    w.observe(b"de");
    assert_eq!(w.bytes(), b"abcde");

    let big: Vec<u8> = (0..TAIL_LIMIT + 10).map(|i| (i % 251) as u8).collect();
    w.observe(&big);
    assert_eq!(w.bytes(), &big[10..]);

    w.observe(b"xyz");
    assert_eq!(w.bytes().len(), TAIL_LIMIT);
    assert_eq!(&w.bytes()[..TAIL_LIMIT - 3], &big[13..]);
    assert_eq!(&w.bytes()[TAIL_LIMIT - 3..], b"xyz");
}

#[test]
fn window_at_the_limit() {
    let mut w = TailWindow::new();
    let full: Vec<u8> = vec![7; TAIL_LIMIT];
    w.observe(&full);
    assert_eq!(w.bytes().len(), TAIL_LIMIT);
    w.observe(b"1");
    assert_eq!(w.bytes().len(), TAIL_LIMIT);
    assert_eq!(w.bytes()[TAIL_LIMIT - 1], b'1');
    assert_eq!(w.bytes()[0], 7);
    let exact: Vec<u8> = vec![9; TAIL_LIMIT];
    w.observe(&exact);
    assert_eq!(w.bytes(), &exact[..]);
}

#[test]
fn window_is_the_end_of_the_whole_stream() {
    let chunks: Vec<Vec<u8>> = (0..40usize)
        .map(|i| (0..(i * 37) % 900).map(|j| ((i + j) % 256) as u8).collect())
        .collect();
    let mut w = TailWindow::new();
    let mut all: Vec<u8> = Vec::new();
    for c in &chunks {
        w.observe(c);
        all.extend_from_slice(c);
        let from = all.len().saturating_sub(TAIL_LIMIT);
        assert_eq!(w.bytes(), &all[from..]);
    }
    assert!(all.len() > TAIL_LIMIT);
}

#[test]
fn relay_hands_every_chunk_on_unchanged() {
    let mut w = TailWindow::new();
    let chunks: Vec<Vec<u8>> = vec![
        b"data: {\"a\":1}\n\n".to_vec(),
        vec![0xff, 0x00, 0x80],
        Vec::new(),
        vec![b'\n'; TAIL_LIMIT + 1],
        b"data: {\"usage\":{\"total_tokens\":5}}\n\n".to_vec(),
    ];
    let mut delivered: Vec<u8> = Vec::new();
    let mut original: Vec<u8> = Vec::new();
    for c in chunks {
        original.extend_from_slice(&c);
        let out = w.relay(c.clone());
        assert_eq!(out, c);
        delivered.extend_from_slice(&out);
    }
    assert_eq!(delivered, original);
    assert_eq!(TokenUsage::of_tail(w.bytes()), Some(usage(None, Some(5))));
}

#[test]
fn a_new_record_has_no_outcome_yet() {
    let l = log(200, "/v1/messages");
    assert_eq!(l.id, "id-1");
    assert_eq!(l.timestamp, 1_700_000_000_000);
    assert_eq!(l.method, "POST");
    assert_eq!(l.url, "/v1/messages");
    assert_eq!(l.status, 200);
    assert_eq!(l.duration, 12);
    assert_eq!(l.model.as_deref(), Some("gemini-pro"));
    assert_eq!(l.request_body.as_deref(), Some("{}"));
    assert_eq!(l.error, None);
    assert_eq!(l.response_body, None);
    assert_eq!(l.input_tokens, None);
    assert_eq!(l.output_tokens, None);
}

#[test]
fn stream_record_of_a_success() {
    let l = log(200, "/v1/messages").with_stream(b"data: {\"usage\":{\"input_tokens\":2,\"output_tokens\":3}}\n\n");
    assert_eq!(l.response_body.as_deref(), Some("[Stream Data]"));
    assert_eq!(l.input_tokens, Some(2));
    assert_eq!(l.output_tokens, Some(3));
    assert_eq!(l.error, None);
    assert_eq!(l.status, 200);
    assert_eq!(l.model.as_deref(), Some("gemini-pro"));
}

#[test]
fn stream_record_of_a_failure() {
    let l = log(400, "/v1/messages").with_stream(b"data: {\"error\":\"bad\"}\n\n");
    assert_eq!(l.response_body.as_deref(), Some("[Stream Data]"));
    assert_eq!(l.error.as_deref(), Some("Stream Error or Failed"));
    assert_eq!(l.input_tokens, None);
    assert_eq!(l.output_tokens, None);
    let edge = log(399, "/v1/messages").with_stream(b"");
    assert_eq!(edge.error, None);
}

#[test]
fn body_record_of_a_success() {
    let body = b"{\"usage\":{\"total_tokens\":42}}";
    let l = log(200, "/v1/messages").with_body(body);
    assert_eq!(l.response_body.as_deref(), Some("{\"usage\":{\"total_tokens\":42}}"));
    assert_eq!(l.input_tokens, None);
    assert_eq!(l.output_tokens, Some(42));
    assert_eq!(l.error, None);
}

#[test]
fn body_record_of_a_failure_keeps_the_text_as_error() {
    let l = log(429, "/v1/messages").with_body(b"{\"error\":\"slow down\"}");
    assert_eq!(l.response_body.as_deref(), Some("{\"error\":\"slow down\"}"));
    assert_eq!(l.error.as_deref(), Some("{\"error\":\"slow down\"}"));
    assert_eq!(l.output_tokens, None);
    let plain = log(500, "/v1/messages").with_body(b"oops");
    assert_eq!(plain.error.as_deref(), Some("oops"));
}

#[test]
fn body_record_of_bytes_that_are_no_text() {
    let l = log(200, "/v1/messages").with_body(&[0xff, 0xfe, 0x00]);
    assert_eq!(l.response_body.as_deref(), Some("[Binary Response Data]"));
    assert_eq!(l.error, None);
    assert_eq!(l.output_tokens, None);
    let failed = log(502, "/v1/messages").with_body(&[0xc0, 0x80]);
    assert_eq!(failed.response_body.as_deref(), Some("[Binary Response Data]"));
    assert_eq!(failed.error.as_deref(), Some("[Binary Response Data]"));
}

#[test]
fn body_record_keeps_counts_where_the_body_gives_none() {
    let mut l = log(200, "/v1/messages");
    l.input_tokens = Some(1);
    l.output_tokens = Some(2);
    let kept = l.clone().with_body(b"{\"ok\":true}");
    assert_eq!((kept.input_tokens, kept.output_tokens), (Some(1), Some(2)));
    let replaced = l.clone().with_body(b"{\"usage\":{}}");
    assert_eq!((replaced.input_tokens, replaced.output_tokens), (None, None));
    let streamed = l.with_stream(b"data: nothing\n");
    assert_eq!((streamed.input_tokens, streamed.output_tokens), (Some(1), Some(2)));
}

#[test]
fn oversized_record_carries_the_marker() {
    let l = log(500, "/v1/messages").with_oversized();
    assert_eq!(l.response_body.as_deref(), Some("[Response too large]"));
    assert_eq!(l.error, None);
    assert_eq!(l.input_tokens, None);
    assert_eq!(l.output_tokens, None);
}

#[test]
fn other_record_names_the_content_type() {
    let l = log(200, "/v1/files").with_other("image/png");
    assert_eq!(l.response_body.as_deref(), Some("[image/png]"));
    assert_eq!(l.error, None);
    let empty = log(404, "/v1/files").with_other("");
    assert_eq!(empty.response_body.as_deref(), Some("[]"));
    assert_eq!(empty.error, None);
}

#[test]
fn metered_requests_lie_under_v1() {
    assert!(is_api_request("/v1/messages"));
    assert!(is_api_request("/v1/"));
    assert!(is_api_request("/v1/chat/completions?x=1"));
    assert!(!is_api_request("/v1"));
    assert!(!is_api_request("/v1beta/models/gemini-pro:generateContent"));
    assert!(!is_api_request("/api/keys"));
    assert!(!is_api_request("/v1/event_logging/batch"));
    assert!(!is_api_request("/v1/x?next=event_logging"));
    assert!(!is_api_request(""));
    assert!(!is_api_request("http://host/v1/messages"));
}

#[test]
fn plan_with_the_monitor_on() {
    let id = identity("sk-1");
    for who in [None, Some(&id)] {
        assert_eq!(monitor_middleware(true, "/v1/event_logging", "POST", who), MonitorPlan::PassThrough);
        assert_eq!(monitor_middleware(true, "/api/event_logging/x", "GET", who), MonitorPlan::PassThrough);
        assert_eq!(monitor_middleware(true, "/v1/messages", "POST", who), MonitorPlan::Observe { capture_body: true });
        assert_eq!(monitor_middleware(true, "/v1/messages", "GET", who), MonitorPlan::Observe { capture_body: false });
        assert_eq!(monitor_middleware(true, "/v1/messages", "post", who), MonitorPlan::Observe { capture_body: false });
        assert_eq!(monitor_middleware(true, "/", "PUT", who), MonitorPlan::Observe { capture_body: false });
    }
}

#[test]
fn plan_with_the_monitor_off() {
    let id = identity("sk-1");
    assert_eq!(monitor_middleware(false, "/v1/messages", "POST", Some(&id)), MonitorPlan::Meter);
    assert_eq!(monitor_middleware(false, "/v1/chat/completions", "GET", Some(&id)), MonitorPlan::Meter);
    assert_eq!(monitor_middleware(false, "/v1/messages", "POST", None), MonitorPlan::PassThrough);
    assert_eq!(monitor_middleware(false, "/v1/event_logging", "POST", Some(&id)), MonitorPlan::PassThrough);
    assert_eq!(monitor_middleware(false, "/api/keys", "GET", Some(&id)), MonitorPlan::PassThrough);
    assert_eq!(monitor_middleware(false, "/v1beta/models/m:call", "POST", Some(&id)), MonitorPlan::PassThrough);
    assert_eq!(monitor_middleware(false, "/", "GET", None), MonitorPlan::PassThrough);
}

#[test]
fn counts_are_recorded_with_the_monitor_off() {
    let id = identity("K");
    let uri = "/v1/chat/completions";
    assert_eq!(monitor_middleware(false, uri, "POST", Some(&id)), MonitorPlan::Meter);
    assert_eq!(ContentKind::of("application/json"), ContentKind::Buffered);
    let body = br#"{"usage":{"prompt_tokens":3,"completion_tokens":5}}"#;
    let r = UsageRecord::of_body(uri, Some(&id), 200, body).unwrap();
    assert_eq!(r.key, "K");
    assert!(r.success);
    assert_eq!(r.input_tokens, Some(3));
    assert_eq!(r.output_tokens, Some(5));
}

#[test]
fn metering_is_the_same_with_the_monitor_on_and_off() {
    let id = identity("K");
    let uri = "/v1/messages";
    let bodies: [&[u8]; 6] = [
        br#"{"usage":{"prompt_tokens":3,"completion_tokens":5}}"#,
        br#"{"usage":{"total_tokens":9}}"#,
        br#"{"usage":{}}"#,
        br#"{"error":"no"}"#,
        b"plain text",
        &[0xff, 0xfe],
    ];
    let tails: [&[u8]; 4] = [
        b"data: {\"usage\":{\"input_tokens\":2,\"output_tokens\":3}}\n\ndata: [DONE]\n\n",
        b"data: {\"delta\":\"x\"}\n\n",
        b"",
        &[0x80],
    ];
    for status in [200u16, 204, 302, 399, 400, 429, 500] {
        for body in bodies {
            let on = UsageRecord::logged(Some(&id), &log(status, uri).with_body(body)).unwrap();
            let off = UsageRecord::of_body(uri, Some(&id), status, body).unwrap();
            assert_eq!((on.key, on.success, on.input_tokens, on.output_tokens), (off.key, off.success, off.input_tokens, off.output_tokens));
        }
        for tail in tails {
            let on = UsageRecord::logged(Some(&id), &log(status, uri).with_stream(tail)).unwrap();
            let off = UsageRecord::of_stream(uri, Some(&id), status, tail).unwrap();
            assert_eq!((on.key, on.success, on.input_tokens, on.output_tokens), (off.key, off.success, off.input_tokens, off.output_tokens));
        }
        let on = UsageRecord::logged(Some(&id), &log(status, uri).with_other("image/png")).unwrap();
        let off = UsageRecord::of_other(uri, Some(&id), status).unwrap();
        assert_eq!((on.key, on.success, on.input_tokens, on.output_tokens), (off.key, off.success, off.input_tokens, off.output_tokens));
    }
}

#[test]
fn model_is_read_from_the_uri() {
    assert_eq!(
        model_from_url("/v1beta/models/gemini-pro:generateContent").as_deref(),
        Some("gemini-pro")
    );
    assert_eq!(
        model_from_url("/v1beta/models/gemini-1.5-flash:streamGenerateContent?alt=sse").as_deref(),
        Some("gemini-1.5-flash")
    );
    assert_eq!(model_from_url("/v1beta/models/gemini-pro").as_deref(), Some("gemini-pro"));
    assert_eq!(model_from_url("/v1beta/models/").as_deref(), Some(""));
    assert_eq!(model_from_url("/v1beta/models/:x").as_deref(), Some(""));
    assert_eq!(model_from_url("/v1beta/models/a/v1beta/models/b:c").as_deref(), Some("a"));
    assert_eq!(model_from_url("/v1beta/models/a:b/v1beta/models/c").as_deref(), Some("a"));
    assert_eq!(model_from_url("/x/v1beta/models/m?k=1").as_deref(), Some("m?k=1"));
    assert_eq!(model_from_url("/v1beta/models"), None);
    assert_eq!(model_from_url("/v1/messages"), None);
    assert_eq!(model_from_url(""), None);
}

#[test]
fn model_from_url_agrees_with_splitting() {
    for uri in ["/v1beta/models/a:b", "/v1beta/models/", "x/v1beta/models/y/v1beta/models/z", "/v1beta/models/v1beta/models/",
        "/v1beta/models//v1beta/models/:", "/v1/none", "/v1beta/models/a?b:c"]
    {
        let expected = if uri.contains("/v1beta/models/") {
            uri.split("/v1beta/models/").nth(1).and_then(|s| s.split(':').next()).map(|s| s.to_string())
        } else {
            None
        };
        assert_eq!(model_from_url(uri), expected, "{}", uri);
    }
}

#[test]
fn model_is_read_from_the_body() {
    assert_eq!(model_from_body(b"{\"model\":\"large-v2\",\"messages\":[]}").as_deref(), Some("large-v2"));
    assert_eq!(model_from_body(b"{\"model\":\"\"}").as_deref(), Some(""));
    assert_eq!(model_from_body(b"{\"model\":3}"), None);
    assert_eq!(model_from_body(b"{\"model\":null}"), None);
    assert_eq!(model_from_body(b"{\"Model\":\"x\"}"), None);
    assert_eq!(model_from_body(b"{\"model\":\"x\""), None);
    assert_eq!(model_from_body(b"[\"model\"]"), None);
    assert_eq!(model_from_body(b""), None);
    assert_eq!(model_from_body(&[b'{', 0xff, b'}']), None);
    assert_eq!(model_from_body("{\"model\":\"mod\u{e8}le\"}".as_bytes()).as_deref(), Some("mod\u{e8}le"));
    assert_eq!(model_from_body(b"{\"model\":\"a\\u0041\\n\"}").as_deref(), Some("aA\n"));
}

#[test]
fn model_of_a_parsed_document() {
    let doc = Some(object(vec![("model", Json::Text("m".to_string()))]));
    assert_eq!(model_of_document(&doc).as_deref(), Some("m"));
    assert_eq!(model_of_document(&None), None);
    assert_eq!(model_of_document(&Some(object(vec![("model", count(1))]))), None);
    assert_eq!(model_of_document(&Some(Json::Text("model".to_string()))), None);
}

#[test]
fn capture_prefers_the_model_of_the_uri() {
    let c = capture_request(
        "/v1beta/models/gemini-pro:generateContent",
        Some(b"{\"model\":\"other\"}"),
    );
    assert_eq!(c.model.as_deref(), Some("gemini-pro"));
    assert_eq!(c.request_body.as_deref(), Some("{\"model\":\"other\"}"));
}

#[test]
fn capture_falls_back_to_the_model_of_the_body() {
    let c = capture_request("/v1/messages", Some(b"{\"model\":\"large-v2\"}"));
    assert_eq!(c.model.as_deref(), Some("large-v2"));
    assert_eq!(c.request_body.as_deref(), Some("{\"model\":\"large-v2\"}"));
    let plain = capture_request("/v1/messages", Some(b"hello"));
    assert_eq!(plain.model, None);
    assert_eq!(plain.request_body.as_deref(), Some("hello"));
    let empty = capture_request("/v1/messages", Some(b""));
    assert_eq!(empty.model, None);
    assert_eq!(empty.request_body.as_deref(), Some(""));
}

#[test]
fn capture_marks_a_body_that_is_no_text() {
    let c = capture_request("/v1/messages", Some(&[0x80, 0x81]));
    assert_eq!(c.model, None);
    assert_eq!(c.request_body.as_deref(), Some("[Binary Request Data]"));
}

#[test]
fn capture_without_a_body() {
    let c = capture_request("/v1beta/models/m:call", None);
    assert_eq!(c.model.as_deref(), Some("m"));
    assert_eq!(c.request_body, None);
    let none = capture_request("/v1/messages", None);
    assert_eq!(none.model, None);
    assert_eq!(none.request_body, None);
}

#[test]
fn content_kinds() {
    assert_eq!(ContentKind::of("text/event-stream"), ContentKind::EventStream);
    assert_eq!(ContentKind::of("text/event-stream; charset=utf-8"), ContentKind::EventStream);
    assert_eq!(ContentKind::of("application/json"), ContentKind::Buffered);
    assert_eq!(ContentKind::of("application/json; charset=utf-8"), ContentKind::Buffered);
    assert_eq!(ContentKind::of("text/plain"), ContentKind::Buffered);
    assert_eq!(ContentKind::of("text/html"), ContentKind::Buffered);
    assert_eq!(ContentKind::of("image/png"), ContentKind::Other);
    assert_eq!(ContentKind::of("application/octet-stream"), ContentKind::Other);
    assert_eq!(ContentKind::of(""), ContentKind::Other);
    assert_eq!(ContentKind::of("Text/Event-Stream"), ContentKind::Other);
    assert_eq!(ContentKind::of("application/x-ndjson"), ContentKind::Other);
}

#[test]
fn usage_is_recorded_for_metered_requests_of_known_keys() {
    let id = identity("sk-1");
    let r = UsageRecord::entry("/v1/messages", Some(&id), true, Some(1), Some(2)).unwrap();
    assert_eq!(r.key, "sk-1");
    assert!(r.success);
    assert_eq!(r.input_tokens, Some(1));
    assert_eq!(r.output_tokens, Some(2));
    assert!(UsageRecord::entry("/v1/messages", None, true, Some(1), Some(2)).is_none());
    assert!(UsageRecord::entry("/api/keys", Some(&id), true, None, None).is_none());
    assert!(UsageRecord::entry("/v1/event_logging", Some(&id), true, None, None).is_none());
    assert!(UsageRecord::entry("/v1beta/models/m:call", Some(&id), true, None, None).is_none());
}

#[test]
fn usage_of_a_stream_goes_by_status_and_tail() {
    let id = identity("sk-1");
    let tail = b"data: {\"usage\":{\"prompt_tokens\":5,\"completion_tokens\":6}}\n\n";
    let r = UsageRecord::of_stream("/v1/messages", Some(&id), 200, tail).unwrap();
    assert_eq!(r.key, "sk-1");
    assert!(r.success);
    assert_eq!(r.input_tokens, Some(5));
    assert_eq!(r.output_tokens, Some(6));
    let failed = UsageRecord::of_stream("/v1/messages", Some(&id), 500, b"data: {}\n").unwrap();
    assert!(!failed.success);
    assert_eq!(failed.input_tokens, None);
    assert_eq!(failed.output_tokens, None);
    assert!(UsageRecord::of_stream("/v1/messages", None, 200, tail).is_none());
    assert!(UsageRecord::of_stream("/api/stream", Some(&id), 200, tail).is_none());
}

#[test]
fn usage_of_a_body_goes_by_status_and_body() {
    let id = identity("sk-1");
    let body = b"{\"usage\":{\"total_tokens\":42}}";
    for (status, success) in [(200, true), (204, true), (302, true), (399, true), (400, false), (404, false), (500, false)] {
        let r = UsageRecord::of_body("/v1/messages", Some(&id), status, body).unwrap();
        assert_eq!(r.success, success, "{}", status);
        assert_eq!(r.input_tokens, None);
        assert_eq!(r.output_tokens, Some(42));
        assert_eq!(r.key, "sk-1");
    }
    let none = UsageRecord::of_body("/v1/messages", Some(&id), 200, b"not json").unwrap();
    assert_eq!((none.input_tokens, none.output_tokens), (None, None));
    let binary = UsageRecord::of_body("/v1/messages", Some(&id), 200, &[0xff]).unwrap();
    assert_eq!((binary.input_tokens, binary.output_tokens), (None, None));
    assert!(UsageRecord::of_body("/v1/messages", None, 200, body).is_none());
    assert!(UsageRecord::of_body("/healthz", Some(&id), 200, body).is_none());
}

#[test]
fn usage_of_another_content_type_has_no_counts() {
    let id = identity("sk-1");
    for (status, success) in [(200, true), (399, true), (400, false), (503, false)] {
        let r = UsageRecord::of_other("/v1/files", Some(&id), status).unwrap();
        assert_eq!(r.success, success, "{}", status);
        assert_eq!((r.input_tokens, r.output_tokens), (None, None));
    }
    assert!(UsageRecord::of_other("/v1/files", None, 200).is_none());
    assert!(UsageRecord::of_other("/files", Some(&id), 200).is_none());
}

#[test]
fn usage_of_a_logged_request_goes_by_the_record() {
    let id = identity("sk-2");
    let l = log(200, "/v1/messages").with_body(b"{\"usage\":{\"prompt_tokens\":3,\"completion_tokens\":4}}");
    let r = UsageRecord::logged(Some(&id), &l).unwrap();
    assert_eq!(r.key, "sk-2");
    assert!(r.success);
    assert_eq!(r.input_tokens, Some(3));
    assert_eq!(r.output_tokens, Some(4));
    for (status, success) in [(302, true), (399, true), (400, false), (503, false)] {
        let r = UsageRecord::logged(Some(&id), &log(status, "/v1/messages")).unwrap();
        assert_eq!(r.success, success, "{}", status);
    }
    assert!(UsageRecord::logged(None, &l).is_none());
    assert!(UsageRecord::logged(Some(&id), &log(200, "/api/accounts")).is_none());
}

#[test]
fn usage_of_an_oversized_response_is_a_failure() {
    let id = identity("sk-3");
    let r = UsageRecord::oversized("/v1/messages", Some(&id)).unwrap();
    assert_eq!(r.key, "sk-3");
    assert!(!r.success);
    assert_eq!(r.input_tokens, None);
    assert_eq!(r.output_tokens, None);
    assert!(UsageRecord::oversized("/v1/messages", None).is_none());
    assert!(UsageRecord::oversized("/", Some(&id)).is_none());
}
