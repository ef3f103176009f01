use docmost_local_mcp::auth::helper::{Options, OptionsError};
use docmost_local_mcp::auth::local_server::{
    AuthResponse, LocalAuthDefaults, PartialLoginInput, Settlement, auth_reply, auth_timeout_ms,
    auth_window_session, escape_html, parse_login_input, render_login_html, render_success_html,
};
use docmost_local_mcp::auth::manager::{
    ReauthPlan, SessionChoice, choose_session, get_jwt_expiry_iso, get_preferred_base_url,
    login_defaults, login_failed_message, login_outcome, login_records, read_auth_token_from_cookies,
    reauth_plan, response_details, session_expiring_at,
};
use docmost_local_mcp::auth::webview::{
    HelperExitOutcome, helper_exit_cancelled, helper_exit_error_message, helper_exit_outcome,
    helper_exit_success, is_auth_completed, native_helper_args,
};
use docmost_local_mcp::types::{LoginInput, StoredConfig, StoredCredentials, StoredSession};

fn s(v: &str) -> String {
    v.to_string()
}

#[test]
fn login_input_trims_and_falls_back_to_default_base_url() {
    let defaults = LocalAuthDefaults { base_url: Some(s("https://docs.example.com")), email: None, base_url_readonly: true };
    let raw = PartialLoginInput { base_url: Some(s("   ")), email: Some(s(" jane@example.com ")), password: Some(s(" secret ")) };
    let input = parse_login_input(raw, &defaults).unwrap();
    assert_eq!(input, LoginInput { base_url: s("https://docs.example.com"), email: s("jane@example.com"), password: s(" secret ") });
    let missing = PartialLoginInput { base_url: Some(s("https://x")), email: Some(s("a@b")), password: Some(s("")) };
    assert_eq!(parse_login_input(missing, &LocalAuthDefaults::default()).unwrap_err(), "Base URL, email, and password are required.");
}

#[test]
fn html_escaping_and_login_page() {
    assert_eq!(escape_html("<a href=\"x\">Tom & Jerry's</a>"), "&lt;a href=&quot;x&quot;&gt;Tom &amp; Jerry&#39;s&lt;/a&gt;");
    let page = render_login_html(&LocalAuthDefaults { base_url: Some(s("https://d\"x")), email: Some(s("j@x")), base_url_readonly: true });
    assert!(page.contains("value=\"https://d&quot;x\" placeholder=\"https://docs.example.com\" readonly required />"));
    assert!(page.contains("<p>Configured by the MCP server startup options.</p>"));
    assert!(page.contains("value=\"j@x\""));
    assert!(page.contains(":root {"));
    let open = render_login_html(&LocalAuthDefaults::default());
    assert!(open.contains("Use the full Docmost URL, for example https://docs.example.com."));
    assert!(render_success_html().starts_with("<!doctype html>"));
}

#[test]
fn local_server_session_and_replies() {
    let session = auth_window_session(4321);
    assert_eq!(session.login_url, "http://127.0.0.1:4321/login");
    assert_eq!(session.success_url, "http://127.0.0.1:4321/success");
    assert_eq!(session.fallback_url, "http://127.0.0.1:4321/login");
    assert_eq!((session.window_width, session.window_height), (500, 680));
    assert_eq!(auth_timeout_ms(None), 300000);
    assert_eq!(auth_timeout_ms(Some(5000)), 5000);
    assert_eq!(auth_reply(Ok(())), (200, AuthResponse::success(s("/success"))));
    assert_eq!(auth_reply(Err(s("bad"))), (400, AuthResponse::error(s("bad"))));
    let mut settle = Settlement::new();
    assert_eq!(settle.finish(Err("timed out".to_string())), Some(Err("timed out".to_string())));
    assert_eq!(settle.finish(Ok(())), None);
    assert_eq!(settle.finish(Err("late".to_string())), None);
}

#[test]
fn helper_exit_codes() {
    assert!(helper_exit_success(Some(0)));
    assert!(!helper_exit_success(None));
    assert!(helper_exit_cancelled(Some(2)));
    assert_eq!(helper_exit_error_message(Some(2)), "The Docmost sign-in window was closed before authentication completed.");
    assert_eq!(helper_exit_error_message(Some(-9)), "The Docmost sign-in window exited unexpectedly (code -9).");
    assert_eq!(helper_exit_error_message(None), "The Docmost sign-in window exited unexpectedly.");
    assert!(matches!(helper_exit_outcome(Some(0)), HelperExitOutcome::AwaitCompletion));
    assert!(matches!(helper_exit_outcome(Some(7)), HelperExitOutcome::Fail(_)));
    assert!(is_auth_completed("http://127.0.0.1:1/success?x", "http://127.0.0.1:1/success"));
    assert!(!is_auth_completed("http://127.0.0.1:1/login", "http://127.0.0.1:1/success"));
    let args = native_helper_args(&auth_window_session(9));
    assert_eq!(args, vec![s("auth-window"), s("--url"), s("http://127.0.0.1:9/login"), s("--success-url"), s("http://127.0.0.1:9/success"), s("--title"), s("Docmost Sign In"), s("--width"), s("500"), s("--height"), s("680")]);
}

#[test]
fn helper_options_from_args() {
    let args: Vec<String> = ["--url", "http://a/login", "--success-url", "http://a/success", "--width", "+640"].iter().map(|a| s(a)).collect();
    let o = Options::from_args(&args).unwrap();
    assert_eq!((o.url.as_str(), o.success_url.as_str(), o.title.as_str(), o.width, o.height), ("http://a/login", "http://a/success", "Docmost Sign In", 640, 680));
    let bad = vec![s("--height"), s("tall")];
    assert_eq!(Options::from_args(&bad).unwrap_err(), OptionsError::InvalidHeight);
    let unknown = vec![s("--nope")];
    assert_eq!(Options::from_args(&unknown).unwrap_err().message(), "Unknown argument: --nope");
    let missing = vec![s("--title")];
    assert_eq!(Options::from_args(&missing).unwrap_err().message(), "Missing value for --title");
    assert_eq!(Options::from_args(&vec![]).unwrap_err(), OptionsError::MissingUrl);
}

fn config(base: &str) -> StoredConfig {
    StoredConfig { base_url: s(base), email: s("jane@example.com"), last_authenticated_at: s("t") }
}

#[test]
fn session_choice_and_reauth_plan() {
    let session = StoredSession { token: s("tok"), expires_at: None, saved_at: s("t") };
    match choose_session(None, Some(config("https://a")), Some(session.clone()), false) {
        SessionChoice::UseSaved(a) => assert_eq!(a.token, "tok"),
        SessionChoice::Reauthenticate => panic!("saved session should be used"),
    }
    assert!(matches!(choose_session(Some("https://b"), Some(config("https://a")), Some(session.clone()), false), SessionChoice::Reauthenticate));
    assert!(matches!(choose_session(None, Some(config("https://a")), Some(session), true), SessionChoice::Reauthenticate));
    let creds = StoredCredentials { email: s("jane@example.com"), password: s("pw") };
    match reauth_plan(None, Some(&config("https://a")), Some(creds)) {
        ReauthPlan::Login(l) => assert_eq!((l.base_url.as_str(), l.password.as_str()), ("https://a", "pw")),
        ReauthPlan::Prompt => panic!("credentials should be reused"),
    }
    assert!(matches!(reauth_plan(None, None, None), ReauthPlan::Prompt));
    assert_eq!(get_preferred_base_url(Some("https://c"), Some(&config("https://a"))).as_deref(), Some("https://c"));
    let d = login_defaults(None, Some(&config("https://a")));
    assert_eq!((d.base_url.as_deref(), d.email.as_deref(), d.base_url_readonly), (Some("https://a"), Some("jane@example.com"), false));
}

#[test]
fn login_messages_and_records() {
    assert_eq!(login_failed_message("401 Unauthorized", ""), "Docmost login failed (401 Unauthorized).");
    assert_eq!(response_details(Some("  nope \n")), "Response: nope");
    assert_eq!(response_details(Some("   ")), "");
    assert_eq!(response_details(None), "");
    let input = LoginInput { base_url: s(" https://docs.example.com/ "), email: s("jane@example.com"), password: s("pw") };
    let r = login_records(input, s("tok"), Some(s("2026-03-12T01:00:00.000Z")), s("2026-03-12T00:00:00.000Z"));
    assert_eq!(r.config.base_url, "https://docs.example.com");
    assert_eq!(r.authenticated.base_url, "https://docs.example.com");
    assert_eq!(r.session.saved_at, "2026-03-12T00:00:00.000Z");
    assert_eq!(r.credentials.password, "pw");
}

#[test]
fn auth_cookie_and_jwt_expiry() {
    let cookies = vec![s("other=1; Path=/"), s("theme=dark, authToken=abc%20def; HttpOnly")];
    assert_eq!(read_auth_token_from_cookies(&cookies).as_deref(), Some("abc def"));
    assert_eq!(read_auth_token_from_cookies(&vec![s("authToken=; Path=/")]), None);
    assert_eq!(read_auth_token_from_cookies(&vec![s("authToken=xyz")]).as_deref(), Some("xyz"));
    // {"exp":1773277200} in base64url without padding.
    let token = "eyJhbGciOiJIUzI1NiJ9.eyJleHAiOjE3NzMyNzcyMDB9.sig";
    assert_eq!(get_jwt_expiry_iso(token).as_deref(), Some("2026-03-12T01:00:00.000Z"));
    assert_eq!(get_jwt_expiry_iso("no-dots"), None);
    let expiring = StoredSession { token: s("t"), expires_at: Some(s("2026-03-12T01:00:00.000Z")), saved_at: s("x") };
    assert!(session_expiring_at(&expiring, 1773277200000 - 60000));
    assert!(!session_expiring_at(&expiring, 1773277200000 - 600000));
    let never = StoredSession { token: s("t"), expires_at: Some(s("not a date")), saved_at: s("x") };
    assert!(!session_expiring_at(&never, 0));
}

#[test]
fn login_outcome_decides_from_the_response() {
    let input = || LoginInput { base_url: s("https://docs.example.com/"), email: s("jane@example.com"), password: s("pw") };
    let failed = login_outcome(input(), false, "401 Unauthorized", Some(" bad password "), &vec![]);
    assert_eq!(failed.err().as_deref(), Some("Docmost login failed (401 Unauthorized). Response: bad password"));
    let no_cookie = login_outcome(input(), true, "200 OK", None, &vec![s("theme=dark")]);
    assert_eq!(no_cookie.err().as_deref(), Some("Docmost login succeeded but no authToken cookie was returned."));
    let token = "eyJhbGciOiJIUzI1NiJ9.eyJleHAiOjE3NzMyNzcyMDB9.sig";
    let cookies = vec![format!("authToken={token}; HttpOnly")];
    let records = login_outcome(input(), true, "200 OK", None, &cookies).ok().unwrap();
    assert_eq!(records.session.token, token);
    assert_eq!(records.authenticated.token, token);
    assert_eq!(records.session.expires_at.as_deref(), Some("2026-03-12T01:00:00.000Z"));
    assert_eq!(records.session.saved_at, records.config.last_authenticated_at);
    assert!(records.session.saved_at.ends_with('Z'));
    assert_eq!(records.config.base_url, "https://docs.example.com");
    assert_eq!(records.credentials.password, "pw");
}

#[test]
fn auth_cookie_percent_decoding() {
    let read = |c: &str| read_auth_token_from_cookies(&vec![c.to_string()]);
    assert_eq!(read("authToken=a%2Gb+c").as_deref(), Some("a%2Gb+c"));
    assert_eq!(read("authToken=%E2%82%AC%41").as_deref(), Some("€A"));
    assert_eq!(read("authToken=x%4"), Some("x%4".to_string()));
    assert_eq!(read("authToken=%FF"), None);
}
