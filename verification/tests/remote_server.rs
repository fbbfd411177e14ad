use omniroute::window::{open_external, ExternalUrl};
use omniroute::remote_server::{
    get_initial_url, is_valid_http_url, normalized_remote_url, plan_remote_url_change,
    resolve_remote_url, strip_trailing_slash, RemoteUrlChange,
};

#[test]
fn http_and_https_are_valid() {
    assert!(is_valid_http_url("http://localhost:20128"));
    assert!(is_valid_http_url("https://example.com/path"));
    assert!(!is_valid_http_url("ftp://example.com"));
    assert!(!is_valid_http_url("not a url"));
    assert!(!is_valid_http_url("javascript:alert(1)"));
}

#[test]
fn parsed_url_is_normalized() {
    assert!(matches!(open_external("HTTP://Example.COM"), ExternalUrl::Open(ref h) if h == "http://example.com/"));
    assert!(matches!(open_external("MAILTO:a@b.c"), ExternalUrl::Blocked(ref s) if s == "mailto"));
}

#[test]
fn trailing_slashes_are_stripped() {
    assert_eq!(strip_trailing_slash("http://a/b///"), "http://a/b");
    assert_eq!(strip_trailing_slash("http://a"), "http://a");
    assert_eq!(strip_trailing_slash("///"), "");
}

#[test]
fn environment_wins_over_preference() {
    assert_eq!(
        resolve_remote_url(Some(" http://env:1/ "), Some("http://prefs:2")),
        Some("http://env:1".to_string())
    );
    assert_eq!(
        resolve_remote_url(Some("bogus"), Some("http://prefs:2/")),
        Some("http://prefs:2".to_string())
    );
    assert_eq!(resolve_remote_url(Some("  "), None), None);
    assert_eq!(resolve_remote_url(None, Some("ftp://x")), None);
}

#[test]
fn switching_url_is_planned() {
    assert!(matches!(plan_remote_url_change(None, Some("nope")), RemoteUrlChange::Rejected));
    assert!(matches!(
        plan_remote_url_change(Some("http://a"), Some(" http://a ")),
        RemoteUrlChange::Unchanged
    ));
    assert!(matches!(plan_remote_url_change(None, Some("  ")), RemoteUrlChange::Unchanged));
    match plan_remote_url_change(None, Some(" http://b ")) {
        RemoteUrlChange::Switch { url } => assert_eq!(url, Some("http://b".to_string())),
        _ => panic!("expected a switch"),
    }
    match plan_remote_url_change(Some("http://a"), None) {
        RemoteUrlChange::Switch { url } => assert_eq!(url, None),
        _ => panic!("expected a switch"),
    }
}

#[test]
fn stored_url_is_restored_without_trailing_slash() {
    let stored = normalized_remote_url(Some("  http://host:8080/  ")).unwrap();
    assert_eq!(stored, "http://host:8080/");
    assert_eq!(resolve_remote_url(None, Some(&stored)), Some("http://host:8080".to_string()));
    assert_eq!(normalized_remote_url(Some("   ")), None);
}

#[test]
fn prompt_starts_with_current_url() {
    assert_eq!(get_initial_url(Some("http://x")), "http://x");
    assert_eq!(get_initial_url(None), "");
}
