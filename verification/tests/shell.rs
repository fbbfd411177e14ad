use omniroute::autostart::fallback;
use omniroute::autostart::{
    autostart_dir, desktop_entry_content, desktop_path, is_linux_desktop_autostart_enabled,
};
use omniroute::ipc::check_external_url;
use omniroute::paths::PathBase;
use omniroute::state::{initial_state, resolve_data_dir};
use omniroute::tray::{dashboard_url, tray_action, tray_menu, TrayAction};
use omniroute::window::{
    dev_mode_update_status, get_app_info, get_autostart_status, get_login_status, open_external,
    start_login, update_status, update_status_with_version, ExternalUrl,
};
use omniroute::{hide_instead_of_close, is_dev_mode, launched_hidden, port_changed, server_status};

#[test]
fn event_payloads() {
    let s = server_status("running", 20128, None);
    assert_eq!(s.status, "running");
    assert_eq!(s.port, 20128);
    assert!(s.remote_url.is_none());
    let s = server_status("remote", 20128, Some("https://r.example"));
    assert_eq!(s.remote_url.as_deref(), Some("https://r.example"));
    assert_eq!(port_changed(3000).port, 3000);
}

#[test]
fn dev_mode_detection() {
    assert!(is_dev_mode(true, None));
    assert!(is_dev_mode(false, Some("development")));
    assert!(!is_dev_mode(false, Some("production")));
    assert!(!is_dev_mode(false, Some("Development")));
    assert!(!is_dev_mode(false, None));
}

#[test]
fn hidden_launch_flags() {
    let args = |v: &[&str]| v.iter().map(|s| s.to_string()).collect::<Vec<_>>();
    assert!(launched_hidden(&args(&["omniroute", "--hidden"])));
    assert!(launched_hidden(&args(&["omniroute", "--minimized"])));
    assert!(!launched_hidden(&args(&["omniroute", "--hide"])));
    assert!(!launched_hidden(&args(&[])));
}

#[test]
fn main_window_hides_unless_quitting() {
    assert!(hide_instead_of_close("main", false));
    assert!(!hide_instead_of_close("main", true));
    assert!(!hide_instead_of_close("login-x", false));
}

#[test]
fn state_changes() {
    let mut st = initial_state();
    assert_eq!(st.port, 20128);
    assert!(!st.is_dev && !st.is_quitting && st.remote_server_url.is_none());
    st.set_port(8080);
    assert_eq!(st.port, 8080);
    assert!(!st.is_quitting);
    st.mark_quitting();
    assert!(st.is_quitting);
    assert_eq!(st.port, 8080);
}

#[test]
fn data_dir_resolution() {
    let p = resolve_data_dir(Some(" /data "), true, true, None, true);
    assert!(matches!(p.base, PathBase::Given(ref d) if d == "/data"));
    assert!(p.parts.is_empty());
    let p = resolve_data_dir(Some("  "), false, false, Some("/xdg"), true);
    assert!(matches!(p.base, PathBase::Given(ref d) if d == "/xdg"));
    assert_eq!(p.parts, vec!["omniroute"]);
    let p = resolve_data_dir(None, false, false, None, true);
    assert!(matches!(p.base, PathBase::Home));
    assert_eq!(p.parts, vec![".omniroute"]);
    let p = resolve_data_dir(None, true, false, None, true);
    assert!(matches!(p.base, PathBase::Home));
    assert_eq!(p.parts, vec!["AppData", "Roaming", "omniroute"]);
    let p = resolve_data_dir(None, true, true, None, true);
    assert!(matches!(p.base, PathBase::AppData));
    assert_eq!(p.parts, vec!["omniroute"]);
    let p = resolve_data_dir(None, false, false, None, false);
    assert!(matches!(p.base, PathBase::Given(ref d) if d == ".omniroute"));
}

#[test]
fn tray_menu_labels() {
    let m = tray_menu(20128, None);
    assert_eq!(m.port_label, "Port: 20128");
    assert_eq!(m.remote_label, "Using local embedded server");
    assert!(!m.disconnect_enabled);
    let m = tray_menu(0, Some("https://r.example"));
    assert_eq!(m.port_label, "Port: 0");
    assert_eq!(m.remote_label, "Connected: https://r.example");
    assert!(m.disconnect_enabled);
}

#[test]
fn tray_actions() {
    assert!(matches!(tray_action("open"), TrayAction::Open));
    assert!(matches!(tray_action("open_dashboard"), TrayAction::OpenDashboard));
    assert!(matches!(tray_action("port_20128"), TrayAction::ChangePort(20128)));
    assert!(matches!(tray_action("port_3000"), TrayAction::ChangePort(3000)));
    assert!(matches!(tray_action("port_8080"), TrayAction::ChangePort(8080)));
    assert!(matches!(tray_action("remote_connect"), TrayAction::ConnectRemote));
    assert!(matches!(tray_action("remote_disconnect"), TrayAction::DisconnectRemote));
    assert!(matches!(tray_action("check_updates"), TrayAction::CheckUpdates));
    assert!(matches!(tray_action("quit"), TrayAction::Quit));
    assert!(matches!(tray_action("port_9999"), TrayAction::Ignore));
    assert!(matches!(tray_action(""), TrayAction::Ignore));
}

#[test]
fn dashboard_target() {
    assert_eq!(dashboard_url(None, 20128), "http://localhost:20128");
    assert_eq!(dashboard_url(Some("https://r.example"), 20128), "https://r.example");
}

#[test]
fn app_info_mirrors_state() {
    let mut st = initial_state();
    st.remote_server_url = Some("https://r.example".to_string());
    let info = get_app_info("OmniRoute", "1.2.3", "linux", &st);
    assert_eq!(info.name, "OmniRoute");
    assert_eq!(info.version, "1.2.3");
    assert_eq!(info.platform, "linux");
    assert!(!info.is_dev);
    assert_eq!(info.port, 20128);
    assert_eq!(info.remote_server_url.as_deref(), Some("https://r.example"));
}

#[test]
fn external_urls() {
    assert!(matches!(open_external("https://example.com"), ExternalUrl::Open(ref u) if u == "https://example.com/"));
    assert!(matches!(open_external("HTTP://Example.com/a"), ExternalUrl::Open(ref u) if u == "http://example.com/a"));
    assert!(matches!(open_external("file:///etc/passwd"), ExternalUrl::Blocked(ref s) if s == "file"));
    assert!(matches!(open_external("javascript:alert(1)"), ExternalUrl::Blocked(ref s) if s == "javascript"));
    assert!(matches!(open_external("not a url"), ExternalUrl::Invalid(ref m) if m == "invalid URL: not a url"));
}

#[test]
fn ipc_external_url_check() {
    assert_eq!(check_external_url("https://example.com"), Ok("https://example.com".to_string()));
    assert_eq!(check_external_url("ftp://x.org"), Err("Blocked unsafe protocol: ftp".to_string()));
    assert_eq!(check_external_url("::"), Err("Blocked invalid URL: ::".to_string()));
}

#[test]
fn login_stubs() {
    let r = start_login("acme");
    assert!(!r.success);
    assert!(r.credentials.is_none());
    assert_eq!(
        r.error.as_deref(),
        Some("Web-cookie login for 'acme' is not yet implemented in the Tauri desktop shell. Use the Next.js dashboard's server-side OAuth flow instead, or run the Electron build to perform this login once.")
    );
    assert!(!get_login_status());
}

#[test]
fn update_statuses() {
    let u = update_status("checking");
    assert_eq!(u.status, "checking");
    assert!(u.version.is_none() && u.percent.is_none() && u.message.is_none());
    assert!(dev_mode_update_status(true).is_none());
    let u = dev_mode_update_status(false).unwrap();
    assert_eq!(u.status, "error");
    assert_eq!(u.message.as_deref(), Some("Updates disabled in dev mode"));
    let u = update_status_with_version("downloaded", "2.0.0", Some(100));
    assert_eq!(u.status, "downloaded");
    assert_eq!(u.version.as_deref(), Some("2.0.0"));
    assert_eq!(u.percent, Some(100));
    let u = update_status_with_version("available", "2.0.0", None);
    assert_eq!(u.percent, None);
}

#[test]
fn autostart_status() {
    assert!(get_autostart_status(true, None));
    assert!(get_autostart_status(false, Some(true)));
    assert!(!get_autostart_status(false, Some(false)));
    assert!(!get_autostart_status(false, None));
    assert!(is_linux_desktop_autostart_enabled(Some(true)));
    assert!(!is_linux_desktop_autostart_enabled(Some(false)));
    assert!(!is_linux_desktop_autostart_enabled(None));
    assert!(!fallback::is_linux_desktop_autostart_enabled());
    assert!(!fallback::enable_linux_desktop_autostart());
    fallback::disable_linux_desktop_autostart();
}

#[test]
fn autostart_desktop_entry() {
    let d = autostart_dir(true).unwrap();
    assert!(matches!(d.base, PathBase::Home));
    assert_eq!(d.parts, vec![".config", "autostart"]);
    let p = desktop_path(true).unwrap();
    assert_eq!(p.parts, vec![".config", "autostart", "omniroute-desktop.desktop"]);
    assert!(desktop_path(false).is_none());
    assert!(autostart_dir(false).is_none());
    assert_eq!(
        desktop_entry_content("/usr/bin/omniroute"),
        "[Desktop Entry]\nType=Application\nName=OmniRoute\nComment=OmniRoute Desktop Client\nExec=\"/usr/bin/omniroute\" --hidden\nTerminal=false\nHidden=false\nX-GNOME-Autostart-enabled=true\n"
    );
}
