use omniroute::ipc::check_parsed_external_url;
use omniroute::remote_server::{is_http_scheme, parsed_is_http, ParsedUrl};
use omniroute::server::{
    port_change_actions, remote_switch_actions, restart_actions, startup_actions, ServerAction,
    StatusKind,
};
use omniroute::tray::{tray_icon_id, tray_items, tray_tooltip, MenuNode, TrayItem};
use omniroute::window::{external_url_answer, ExternalUrl};

fn parsed(scheme: &str, href: &str) -> Option<ParsedUrl> {
    Some(ParsedUrl { scheme: scheme.to_string(), href: href.to_string() })
}

fn is_emit(a: &ServerAction, status: &str, port: u16, url: Option<&str>) -> bool {
    match a {
        ServerAction::EmitStatus { status: s, port: p, remote_url } => {
            s.as_str() == status && *p == port && remote_url.as_deref() == url
        }
        _ => false,
    }
}

#[test]
fn scheme_decisions_on_given_parses() {
    assert!(is_http_scheme("http"));
    assert!(is_http_scheme("https"));
    assert!(!is_http_scheme("HTTP"));
    assert!(!is_http_scheme("ftp"));
    assert!(parsed_is_http(&parsed("https", "https://a/")));
    assert!(!parsed_is_http(&parsed("file", "file:///x")));
    assert!(!parsed_is_http(&None));
    assert!(matches!(external_url_answer("x", parsed("http", "http://a/")), ExternalUrl::Open(ref h) if h == "http://a/"));
    assert!(matches!(external_url_answer("x", parsed("ssh", "ssh://a")), ExternalUrl::Blocked(ref s) if s == "ssh"));
    assert!(matches!(external_url_answer("x y", None), ExternalUrl::Invalid(ref m) if m == "invalid URL: x y"));
    assert_eq!(check_parsed_external_url("u", parsed("https", "https://u/")), Ok("u".to_string()));
    assert_eq!(check_parsed_external_url("u", parsed("data", "data:,")), Err("Blocked unsafe protocol: data".to_string()));
    assert_eq!(check_parsed_external_url("u", None), Err("Blocked invalid URL: u".to_string()));
}

fn item(n: &MenuNode) -> (&str, &str, bool) {
    match n {
        MenuNode::Item { id, label, enabled } => (id.as_str(), label.as_str(), *enabled),
        MenuNode::Separator => ("-", "-", false),
    }
}

#[test]
fn tray_menu_model() {
    assert_eq!(tray_icon_id(), "main-tray");
    assert_eq!(tray_tooltip(), "OmniRoute");
    let items = tray_items(3000, Some("https://r.example"));
    assert_eq!(items.len(), 9);
    let top: Vec<(&str, &str, bool)> = items
        .iter()
        .map(|t| match t {
            TrayItem::Node(n) => item(n),
            TrayItem::Submenu { label, .. } => ("submenu", label.as_str(), true),
        })
        .collect();
    assert_eq!(
        top,
        vec![
            ("open", "Open OmniRoute", true),
            ("open_dashboard", "Open Dashboard", true),
            ("-", "-", false),
            ("submenu", "Server Port", true),
            ("submenu", "Remote Server", true),
            ("-", "-", false),
            ("check_updates", "Check for Updates", true),
            ("-", "-", false),
            ("quit", "Quit OmniRoute", true),
        ]
    );
    match &items[3] {
        TrayItem::Submenu { items: sub, .. } => {
            let v: Vec<_> = sub.iter().map(item).collect();
            assert_eq!(
                v,
                vec![
                    ("port_current", "Port: 3000", false),
                    ("-", "-", false),
                    ("port_20128", "20128", true),
                    ("port_3000", "3000", true),
                    ("port_8080", "8080", true),
                ]
            );
        }
        _ => panic!("the port submenu"),
    }
    match &items[4] {
        TrayItem::Submenu { items: sub, .. } => {
            let v: Vec<_> = sub.iter().map(item).collect();
            assert_eq!(
                v,
                vec![
                    ("remote_label", "Connected: https://r.example", false),
                    ("-", "-", false),
                    ("remote_connect", "Connect to Remote Server…", true),
                    ("remote_disconnect", "Disconnect (use Local Server)", true),
                ]
            );
        }
        _ => panic!("the remote submenu"),
    }
    match &tray_items(20128, None)[4] {
        TrayItem::Submenu { items: sub, .. } => {
            assert_eq!(item(&sub[0]), ("remote_label", "Using local embedded server", false));
            assert_eq!(item(&sub[3]), ("remote_disconnect", "Disconnect (use Local Server)", false));
        }
        _ => panic!("the remote submenu"),
    }
}

#[test]
fn status_texts() {
    assert_eq!(StatusKind::Starting.as_str(), "starting");
    assert_eq!(StatusKind::Running.as_str(), "running");
    assert_eq!(StatusKind::Restarting.as_str(), "restarting");
    assert_eq!(StatusKind::Stopped.as_str(), "stopped");
    assert_eq!(StatusKind::Error.as_str(), "error");
}

#[test]
fn startup_plans() {
    let p = startup_actions(false, 20128, None);
    assert_eq!(p.len(), 7);
    assert!(matches!(p[0], ServerAction::Bootstrap { with_heap: true }));
    assert!(is_emit(&p[1], "starting", 20128, None));
    assert!(matches!(p[2], ServerAction::Spawn));
    assert!(matches!(p[3], ServerAction::WaitReady { timeout_secs: 180 }));
    assert!(is_emit(&p[4], "running", 20128, None));
    assert!(matches!(p[5], ServerAction::Navigate));
    assert!(matches!(p[6], ServerAction::NavigateWhenReady { timeout_secs: 300 }));
    let p = startup_actions(false, 1, Some("http://r"));
    assert_eq!(p.len(), 2);
    assert!(is_emit(&p[0], "running", 1, Some("http://r")));
    assert!(matches!(p[1], ServerAction::Navigate));
    assert_eq!(startup_actions(true, 1, None).len(), 2);
}

#[test]
fn restart_and_port_change_plans() {
    let p = restart_actions(true, 5, None);
    assert_eq!(p.len(), 2);
    assert!(is_emit(&p[0], "restarting", 5, None));
    assert!(is_emit(&p[1], "running", 5, None));
    let p = restart_actions(false, 5, None);
    assert_eq!(p.len(), 7);
    assert!(matches!(p[1], ServerAction::StopServer));
    assert!(matches!(p[2], ServerAction::Bootstrap { with_heap: false }));
    assert!(port_change_actions(3000, 3000, false, None).is_empty());
    let p = port_change_actions(20128, 3000, false, None);
    assert_eq!(p.len(), 11);
    assert!(matches!(p[0], ServerAction::SetPort(3000)));
    assert!(is_emit(&p[1], "restarting", 3000, None));
    assert!(matches!(p[2], ServerAction::StopServer));
    assert!(is_emit(&p[3], "restarting", 3000, None));
    assert!(matches!(p[10], ServerAction::EmitPortChanged(3000)));
}

#[test]
fn remote_switch_plans() {
    let p = remote_switch_actions(20128, Some("https://r"));
    assert_eq!(p.len(), 5);
    assert!(is_emit(&p[0], "restarting", 20128, Some("https://r")));
    assert!(matches!(p[1], ServerAction::StopServer));
    assert!(matches!(&p[2], ServerAction::StoreRemoteUrl(Some(u)) if u == "https://r"));
    assert!(matches!(p[3], ServerAction::Navigate));
    assert!(is_emit(&p[4], "running", 20128, Some("https://r")));
    let p = remote_switch_actions(20128, None);
    assert_eq!(p.len(), 8);
    assert!(matches!(&p[2], ServerAction::StoreRemoteUrl(None)));
    assert!(matches!(p[3], ServerAction::Bootstrap { with_heap: false }));
    assert!(matches!(p[5], ServerAction::WaitReady { timeout_secs: 180 }));
}
