use antiproxy::web_auth::{
    denial, extract_session_token, is_protected_path, is_static_asset, session_checked,
    web_auth_middleware, Denial, GateStep, GateVerdict, LOGIN_PAGE, SESSION_COOKIE_NAME,
    UNAUTHORIZED, UNAUTHORIZED_BODY, UNAUTHORIZED_CONTENT_TYPE,
};

#[test]
fn constants_of_the_session_check() {
    assert_eq!(SESSION_COOKIE_NAME, "antiproxy_session");
    assert_eq!(LOGIN_PAGE, "/login.html");
    assert_eq!(UNAUTHORIZED, 401);
    assert_eq!(UNAUTHORIZED_BODY, r#"{"error": "Authentication required"}"#);
    assert_eq!(UNAUTHORIZED_CONTENT_TYPE, "application/json");
}

#[test]
fn pages_are_no_static_assets() {
    assert!(!is_static_asset("/index.html"));
    assert!(!is_static_asset("/login.html"));
    assert!(!is_static_asset("/assets/page.html"));
    assert!(!is_static_asset(".html"));
    assert!(!is_static_asset("/"));
    assert!(!is_static_asset(""));
}

#[test]
fn static_assets_of_the_web_surface() {
    assert!(is_static_asset("/favicon.ico"));
    assert!(is_static_asset("/assets/app.bin"));
    assert!(is_static_asset("/assets/"));
    for ext in ["css", "js", "png", "svg", "jpg", "jpeg", "webp", "ico", "woff", "woff2", "ttf"] {
        assert!(is_static_asset(&format!("/fonts/a.{}", ext)), "{}", ext);
        assert!(is_static_asset(ext), "{}", ext);
    }
    assert!(!is_static_asset("/a.otf"));
    assert!(!is_static_asset("/a.woff3"));
    assert!(!is_static_asset("/a.html.css.html"));
    assert!(is_static_asset("/a.html.css"));
    assert!(!is_static_asset("/assets"));
    assert!(!is_static_asset("/v1/messages"));
}

#[test]
fn web_assets_agree_with_splitting_at_the_last_dot() {
    for path in ["/", "/a.css", "/a.html", "ttf", "/x/y.woff2", "/assets/y", "/assets/y.html", "/favicon.ico", "/a.HTML", "/a.css.html"] {
        let expected = !path.ends_with(".html")
            && (path == "/favicon.ico" || path.starts_with("/assets/")
                || matches!(
                    path.rsplit('.').next(),
                    Some("css") | Some("js") | Some("png") | Some("svg") | Some("jpg") | Some("jpeg") | Some("webp")
                        | Some("ico") | Some("woff") | Some("woff2") | Some("ttf")
                ));
        assert_eq!(is_static_asset(path), expected, "{}", path);
    }
}

#[test]
fn api_paths_need_a_session() {
    assert!(is_protected_path("/api/keys"));
    assert!(is_protected_path("/api/"));
    assert!(is_protected_path("/api/accounts/1"));
    assert!(is_protected_path("/api/auth"));
    assert!(is_protected_path("/api/oauth"));
    assert!(is_protected_path("/api/app.js"));
    assert!(is_protected_path("/api/authx/"));
}

#[test]
fn paths_of_login_and_callback_need_none() {
    assert!(!is_protected_path("/api/auth/login"));
    assert!(!is_protected_path("/api/auth/"));
    assert!(!is_protected_path("/api/oauth/callback"));
    assert!(!is_protected_path("/login.html"));
    assert!(!is_protected_path("/login"));
    assert!(!is_protected_path("/oauth-callback"));
    assert!(!is_protected_path("/healthz"));
}

#[test]
fn protocol_paths_and_assets_need_none() {
    assert!(!is_protected_path("/v1/messages"));
    assert!(!is_protected_path("/v1/"));
    assert!(!is_protected_path("/v1beta/models/m:generateContent"));
    assert!(!is_protected_path("/favicon.ico"));
    assert!(!is_protected_path("/assets/app.js"));
    assert!(!is_protected_path("/logo.svg"));
}

#[test]
fn every_other_path_needs_a_session() {
    assert!(is_protected_path("/"));
    assert!(is_protected_path(""));
    assert!(is_protected_path("/index.html"));
    assert!(is_protected_path("/settings"));
    assert!(is_protected_path("/v1"));
    assert!(is_protected_path("/v1beta"));
    assert!(is_protected_path("/v2/messages"));
    assert!(is_protected_path("/login/"));
    assert!(is_protected_path("/Login"));
    assert!(is_protected_path("/healthz/"));
    assert!(is_protected_path("/api"));
    assert!(is_protected_path("/oauth-callback/"));
    assert!(is_protected_path("/dashboard.html"));
}

#[test]
fn the_token_of_a_cookie_header() {
    assert_eq!(extract_session_token(Some("antiproxy_session=abc")).as_deref(), Some("abc"));
    assert_eq!(extract_session_token(Some("a=1; antiproxy_session=abc; b=2")).as_deref(), Some("abc"));
    assert_eq!(extract_session_token(Some("a=1;antiproxy_session=abc")).as_deref(), Some("abc"));
    assert_eq!(extract_session_token(Some("  antiproxy_session=abc  ;x=y")).as_deref(), Some("abc"));
    assert_eq!(extract_session_token(Some("antiproxy_session=")).as_deref(), Some(""));
    assert_eq!(extract_session_token(Some("antiproxy_session=a=b")).as_deref(), Some("a=b"));
    assert_eq!(extract_session_token(Some("antiproxy_session=a b")).as_deref(), Some("a b"));
    assert_eq!(extract_session_token(Some("a=1;\tantiproxy_session=t\t")).as_deref(), Some("t"));
}

#[test]
fn the_first_session_cookie_counts() {
    assert_eq!(
        extract_session_token(Some("antiproxy_session=first; antiproxy_session=second")).as_deref(),
        Some("first")
    );
    assert_eq!(
        extract_session_token(Some("antiproxy_session =x; antiproxy_session=second")).as_deref(),
        Some("second")
    );
}

#[test]
fn headers_without_the_session_cookie() {
    assert_eq!(extract_session_token(None), None);
    assert_eq!(extract_session_token(Some("")), None);
    assert_eq!(extract_session_token(Some(";")), None);
    assert_eq!(extract_session_token(Some("a=1; b=2")), None);
    assert_eq!(extract_session_token(Some("antiproxy_session")), None);
    assert_eq!(extract_session_token(Some("Antiproxy_session=abc")), None);
    assert_eq!(extract_session_token(Some("xantiproxy_session=abc")), None);
    assert_eq!(extract_session_token(Some("antiproxy_session =abc")), None);
    assert_eq!(extract_session_token(Some("antiproxy_sessions=abc")), None);
}

#[test]
fn the_token_agrees_with_splitting_and_trimming() {
    for header in ["antiproxy_session=1", " a ; antiproxy_session=2 ;", ";;antiproxy_session=3", "antiproxy_session=4;antiproxy_session=5",
        "x", "", " antiproxy_session= 6 ", "\u{a0}antiproxy_session=7\u{3000}"]
    {
        let mut expected = None;
        for cookie in header.split(';') {
            if let Some(value) = cookie.trim().strip_prefix("antiproxy_session=") {
                expected = Some(value.to_string());
                break;
            }
        }
        assert_eq!(extract_session_token(Some(header)), expected, "{:?}", header);
    }
}

#[test]
fn an_api_request_without_a_cookie_is_unauthorized() {
    let step = web_auth_middleware("/api/keys", None);
    assert!(matches!(step, GateStep::Deny { denial: Denial::Unauthorized }));
    assert_eq!(UNAUTHORIZED, 401);
    assert_eq!(UNAUTHORIZED_BODY, "{\"error\": \"Authentication required\"}");
}

#[test]
fn a_page_request_without_a_cookie_is_sent_to_the_login_page() {
    assert!(matches!(web_auth_middleware("/", None), GateStep::Deny { denial: Denial::RedirectToLogin }));
    assert!(matches!(
        web_auth_middleware("/settings", Some("theme=dark")),
        GateStep::Deny { denial: Denial::RedirectToLogin }
    ));
    assert_eq!(LOGIN_PAGE, "/login.html");
}

#[test]
fn a_request_with_a_cookie_has_its_session_validated() {
    match web_auth_middleware("/", Some("antiproxy_session=tok-1")) {
        GateStep::Validate { token } => assert_eq!(token, "tok-1"),
        other => panic!("{:?}", other),
    }
    match web_auth_middleware("/api/keys", Some("x=1; antiproxy_session=tok-2")) {
        GateStep::Validate { token } => assert_eq!(token, "tok-2"),
        other => panic!("{:?}", other),
    }
}

#[test]
fn a_valid_session_is_refreshed_before_the_request_goes_on() {
    assert_eq!(session_checked("/", true), GateVerdict::RefreshAndPass);
    assert_eq!(session_checked("/api/keys", true), GateVerdict::RefreshAndPass);
}

#[test]
fn an_invalid_session_is_turned_away() {
    assert_eq!(session_checked("/", false), GateVerdict::Deny { denial: Denial::RedirectToLogin });
    assert_eq!(session_checked("/api/keys", false), GateVerdict::Deny { denial: Denial::Unauthorized });
}

#[test]
fn open_paths_pass_whatever_the_cookie() {
    for path in ["/v1/messages", "/login.html", "/healthz", "/api/auth/login", "/assets/a.js", "/favicon.ico"] {
        assert!(matches!(web_auth_middleware(path, None), GateStep::Pass), "{}", path);
        assert!(matches!(web_auth_middleware(path, Some("antiproxy_session=t")), GateStep::Pass), "{}", path);
    }
}

#[test]
fn denial_by_path() {
    assert_eq!(denial("/api/keys"), Denial::Unauthorized);
    assert_eq!(denial("/api/"), Denial::Unauthorized);
    assert_eq!(denial("/api"), Denial::RedirectToLogin);
    assert_eq!(denial("/"), Denial::RedirectToLogin);
    assert_eq!(denial(""), Denial::RedirectToLogin);
}

struct Sessions {
    valid: Vec<String>,
    refreshed: Vec<String>,
}

enum Served {
    Handler,
    Unauthorized,
    Redirect,
}

fn serve(sessions: &mut Sessions, path: &str, cookies: Option<&str>) -> Served {
    let turned_away = |denial: Denial| match denial {
        Denial::Unauthorized => Served::Unauthorized,
        Denial::RedirectToLogin => Served::Redirect,
    };
    match web_auth_middleware(path, cookies) {
        GateStep::Pass => Served::Handler,
        GateStep::Deny { denial } => turned_away(denial),
        GateStep::Validate { token } => {
            let valid = sessions.valid.contains(&token);
            match session_checked(path, valid) {
                GateVerdict::RefreshAndPass => {
                    sessions.refreshed.push(token);
                    Served::Handler
                }
                GateVerdict::Deny { denial } => turned_away(denial),
            }
        }
    }
}

#[test]
fn a_valid_session_on_the_root_page_goes_on_refreshed() {
    let mut sessions = Sessions { valid: vec!["tok-1".to_string()], refreshed: Vec::new() };
    let served = serve(&mut sessions, "/", Some("antiproxy_session=tok-1"));
    assert!(matches!(served, Served::Handler));
    assert_eq!(sessions.refreshed, vec!["tok-1".to_string()]);
}

#[test]
fn an_unknown_session_is_not_refreshed() {
    let mut sessions = Sessions { valid: vec!["tok-1".to_string()], refreshed: Vec::new() };
    assert!(matches!(serve(&mut sessions, "/", Some("antiproxy_session=tok-9")), Served::Redirect));
    assert!(matches!(serve(&mut sessions, "/api/keys", Some("antiproxy_session=tok-9")), Served::Unauthorized));
    assert!(matches!(serve(&mut sessions, "/api/keys", None), Served::Unauthorized));
    assert!(sessions.refreshed.is_empty());
}

#[test]
fn an_open_path_leaves_the_session_alone() {
    let mut sessions = Sessions { valid: vec!["tok-1".to_string()], refreshed: Vec::new() };
    assert!(matches!(serve(&mut sessions, "/v1/messages", Some("antiproxy_session=tok-1")), Served::Handler));
    assert!(matches!(serve(&mut sessions, "/login.html", Some("antiproxy_session=tok-1")), Served::Handler));
    assert!(sessions.refreshed.is_empty());
}
