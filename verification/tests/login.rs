use omniroute::env_map::EnvMap;
use omniroute::login::{
    all_cookie_sources_found, collect_cookie_credentials, load_extraction_config, login_failure,
    login_timings, poll_step, storage_kind, waiting_message, Cookie, ExtractionConfig, LoginManager,
    LoginStart, PollAction, PollEvent, PollState, TokenSource,
};

fn source(kind: &str, name: &str, domain: Option<&str>) -> TokenSource {
    TokenSource { kind: kind.to_string(), name: name.to_string(), domain: domain.map(|d| d.to_string()) }
}

fn cookie(name: &str, domain: Option<&str>, value: &str) -> Cookie {
    Cookie { name: name.to_string(), domain: domain.map(|d| d.to_string()), value: value.to_string() }
}

fn config(min: u64, poll: u64, timeout: u64) -> ExtractionConfig {
    ExtractionConfig {
        provider_id: "p".to_string(),
        display_name: "P".to_string(),
        login_url: "https://p.example/login".to_string(),
        success_url_pattern: None,
        token_sources: vec![],
        min_login_time: min,
        poll_interval: poll,
        timeout,
    }
}

#[test]
fn no_extraction_config_is_bundled() {
    assert!(load_extraction_config("acme").is_none());
    let mut m = LoginManager::new();
    match m.start_login("acme") {
        LoginStart::Refused(r) => {
            assert!(!r.success);
            assert_eq!(r.error.as_deref(), Some("No extraction config for provider: acme"));
        }
        LoginStart::Begin { .. } => panic!("no configuration exists"),
    }
    assert!(m.get_active_provider().is_none());
}

#[test]
fn one_login_at_a_time() {
    let mut m = LoginManager::new();
    assert_eq!(m.begin("a").ok().as_deref(), Some("login-a"));
    assert_eq!(m.get_active_provider().as_deref(), Some("a"));
    match m.begin("b") {
        Err(r) => assert_eq!(r.error.as_deref(), Some("A login process is already in progress")),
        Ok(_) => panic!("a second login must be refused"),
    }
    assert_eq!(m.get_active_provider().as_deref(), Some("a"));
    m.cancel();
    assert!(m.get_active_provider().is_none());
    assert_eq!(m.begin("b").ok().as_deref(), Some("login-b"));
    m.cleanup();
    assert!(m.get_active_provider().is_none());
}

#[test]
fn failure_result() {
    let r = login_failure("boom".to_string());
    assert!(!r.success && r.credentials.is_none());
    assert_eq!(r.error.as_deref(), Some("boom"));
}

#[test]
fn cookies_become_credentials() {
    let sources = vec![
        source("cookie", "sessionKey", Some(".acme.example")),
        source("localStorage", "token", None),
        source("cookie", "csrf", None),
    ];
    let cookies = vec![
        cookie("sessionKey", Some("evil.com"), "bad"),
        cookie("sessionKey", Some("www.acme.example"), "good"),
        cookie("csrf", None, "c1"),
        cookie("csrf", Some("x"), "c2"),
        cookie("token", Some("acme.example"), "ignored"),
    ];
    let creds = collect_cookie_credentials(&sources, &cookies);
    assert_eq!(creds.get("sessionKey").map(|s| s.as_str()), Some("good"));
    assert_eq!(creds.get("csrf").map(|s| s.as_str()), Some("c2"));
    assert!(!creds.contains_key("token"));
    assert_eq!(creds.len(), 2);
    assert!(all_cookie_sources_found(&sources, &creds));
    let partial = collect_cookie_credentials(&sources, &vec![cookie("csrf", None, "c")]);
    assert!(!all_cookie_sources_found(&sources, &partial));
    let storage_only = vec![source("sessionStorage", "t", None)];
    assert!(!all_cookie_sources_found(&storage_only, &EnvMap::new()));
}

#[test]
fn polling_timings_have_floors() {
    assert_eq!(login_timings(&config(0, 0, 0)), (5000, 300000, 1000));
    assert_eq!(login_timings(&config(8000, 2000, 600000)), (8000, 600000, 2000));
}

#[test]
fn waiting_messages_every_thirtieth_poll() {
    assert!(waiting_message(1, 10).is_none());
    assert_eq!(waiting_message(30, 125).as_deref(), Some("Waiting for login... (2m)"));
    assert_eq!(waiting_message(0, 0).as_deref(), Some("Waiting for login... (0m)"));
}

#[test]
fn storage_kind_of_first_storage_source() {
    assert_eq!(storage_kind(&vec![source("cookie", "a", None)]), None);
    assert_eq!(
        storage_kind(&vec![source("cookie", "a", None), source("sessionStorage", "b", None), source("localStorage", "c", None)]),
        Some("sessionStorage")
    );
    assert_eq!(storage_kind(&vec![source("localStorage", "c", None)]), Some("localStorage"));
}

fn cookie_config() -> ExtractionConfig {
    let mut c = config(0, 0, 0);
    c.token_sources = vec![source("cookie", "sid", Some("p.example"))];
    c
}

#[test]
fn polling_cancel_and_timeout() {
    let c = cookie_config();
    let mut st = PollState { poll_count: 3 };
    match poll_step(&c, &mut st, &PollEvent::Cancelled) {
        PollAction::Finish { status, message, result, waiting } => {
            assert_eq!(status, "cancelled");
            assert_eq!(message, "Login cancelled");
            assert_eq!(result.error.as_deref(), Some("Login cancelled"));
            assert!(!result.success && waiting.is_none());
        }
        PollAction::Continue { .. } => panic!("a cancelled login stops"),
    }
    assert_eq!(st.poll_count, 3);
    match poll_step(&c, &mut st, &PollEvent::Poll { elapsed_ms: 300000, cookies: vec![] }) {
        PollAction::Finish { status, result, .. } => {
            assert_eq!(status, "error");
            assert_eq!(result.error.as_deref(), Some("Login timed out"));
        }
        PollAction::Continue { .. } => panic!("the timeout stops polling"),
    }
    assert_eq!(st.poll_count, 3);
}

#[test]
fn polling_until_credentials() {
    let c = cookie_config();
    let mut st = PollState { poll_count: 28 };
    match poll_step(&c, &mut st, &PollEvent::Poll { elapsed_ms: 1000, cookies: vec![cookie("sid", Some("other"), "x")] }) {
        PollAction::Continue { waiting } => assert!(waiting.is_none()),
        PollAction::Finish { .. } => panic!("the cookie is for another domain"),
    }
    assert_eq!(st.poll_count, 29);
    let cookies = vec![cookie("sid", Some("www.p.example"), "token")];
    match poll_step(&c, &mut st, &PollEvent::Poll { elapsed_ms: 150000, cookies }) {
        PollAction::Finish { waiting, status, message, result } => {
            assert_eq!(waiting.as_deref(), Some("Waiting for login... (2m)"));
            assert_eq!(status, "complete");
            assert_eq!(message, "Credentials extracted successfully");
            assert!(result.success && result.error.is_none());
            let creds = result.credentials.unwrap();
            assert_eq!(creds.get("sid").map(|s| s.as_str()), Some("token"));
        }
        PollAction::Continue { .. } => panic!("all cookies were found"),
    }
    assert_eq!(st.poll_count, 30);
}
