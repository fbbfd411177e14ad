use omniroute::env_map::EnvMap;
use omniroute::paths::PathBase;
use omniroute::server::{
    bundled_node_paths, compute_heap_mb, health_url, heap_from_total, heap_mb_for, is_ready_line,
    is_ready_status, js_escape, local_server_url, navigation_script, navigation_url, node_options,
    resolve_node_executable, resolve_node_executable_with_app, resolve_server_entry,
    server_env_for_spawn, startup_mode, NodeExecutable, ServerEntry, StartupMode, DEFAULT_PORT,
};

#[test]
fn server_entry_prefers_websocket_script() {
    assert!(matches!(resolve_server_entry("/s", true, true), Ok(ServerEntry::ServerWs)));
    assert!(matches!(resolve_server_entry("/s", false, true), Ok(ServerEntry::ServerJs)));
    match resolve_server_entry("/srv/app", false, false) {
        Err(m) => assert_eq!(m, "neither server-ws.mjs nor server.js found in /srv/app"),
        Ok(_) => panic!("expected an error"),
    }
    assert_eq!(ServerEntry::ServerWs.file_name(), "server-ws.mjs");
    assert_eq!(ServerEntry::ServerJs.file_name(), "server.js");
}

#[test]
fn node_executable_precedence() {
    assert_eq!(resolve_node_executable(Some("  /opt/node ")), "/opt/node");
    assert_eq!(resolve_node_executable(Some("  ")), "node");
    assert_eq!(resolve_node_executable(None), "node");
    assert!(matches!(
        resolve_node_executable_with_app(Some("/x"), Some(&[true, true])),
        NodeExecutable::Override(ref p) if p == "/x"
    ));
    assert!(matches!(
        resolve_node_executable_with_app(None, Some(&[false, false, true, true])),
        NodeExecutable::Bundled(2)
    ));
    assert!(matches!(resolve_node_executable_with_app(None, Some(&[false; 4])), NodeExecutable::OnPath));
    assert!(matches!(resolve_node_executable_with_app(None, None), NodeExecutable::OnPath));
}

#[test]
fn bundled_node_candidates() {
    let p = bundled_node_paths();
    assert_eq!(p.len(), 4);
    assert!(p.iter().all(|c| matches!(c.base, PathBase::ResourceDir)));
    assert_eq!(p[0].parts, vec!["app", "node", "node.exe"]);
    assert_eq!(p[1].parts, vec!["app", "node", "bin", "node.exe"]);
    assert_eq!(p[2].parts, vec!["app", "node", "bin", "node"]);
    assert_eq!(p[3].parts, vec!["app", "node", "node"]);
}

#[test]
fn heap_size_rules() {
    assert_eq!(heap_from_total(0), 512);
    assert_eq!(heap_from_total(1024 * 1024 * 1024), 512); // 1 GiB -> 358 -> 512
    assert_eq!(heap_from_total(8 * 1024 * 1024 * 1024), 2867); // 8192 * 35 / 100
    assert_eq!(heap_from_total(64 * 1024 * 1024 * 1024), 4096);
    assert_eq!(heap_mb_for(Some(" 1024 "), 0), 1024);
    assert_eq!(heap_mb_for(Some("+64"), 0), 64);
    assert_eq!(heap_mb_for(Some("63"), 0), 512);
    assert_eq!(heap_mb_for(Some("16385"), 8 * 1024 * 1024 * 1024), 2867);
    assert_eq!(heap_mb_for(Some("abc"), 0), 512);
    assert_eq!(compute_heap_mb(Some("2048")), 2048);
    let h = compute_heap_mb(None);
    assert!((512..=4096).contains(&h));
}

#[test]
fn node_options_adds_heap_once() {
    assert_eq!(node_options("", 2048), "--max-old-space-size=2048");
    assert_eq!(node_options("--inspect", 512), "--inspect --max-old-space-size=512");
    assert_eq!(node_options("--max-old-space-size=100", 512), "--max-old-space-size=100");
}

#[test]
fn urls_for_port() {
    assert_eq!(local_server_url(DEFAULT_PORT), "http://localhost:20128");
    assert_eq!(health_url(3000), "http://localhost:3000/api/monitoring/health");
    assert_eq!(local_server_url(0), "http://localhost:0");
    assert_eq!(local_server_url(65535), "http://localhost:65535");
}

#[test]
fn spawn_environment() {
    let mut env = EnvMap::new();
    env.insert("NODE_OPTIONS".into(), "--inspect".into());
    env.insert("PORT".into(), "1".into());
    let out = server_env_for_spawn(env, 8080, "/data", Some(1024));
    assert_eq!(out.get("PORT").unwrap(), "8080");
    assert_eq!(out.get("NODE_ENV").unwrap(), "production");
    assert_eq!(out.get("DATA_DIR").unwrap(), "/data");
    assert_eq!(out.get("NODE_OPTIONS").unwrap(), "--inspect --max-old-space-size=1024");
    let out = server_env_for_spawn(EnvMap::new(), 3000, "/d", None);
    assert!(!out.contains_key("NODE_OPTIONS"));
    assert_eq!(out.len(), 3);
}

#[test]
fn startup_modes() {
    assert!(matches!(startup_mode(true, true), StartupMode::Dev));
    assert!(matches!(startup_mode(false, true), StartupMode::Remote));
    assert!(matches!(startup_mode(false, false), StartupMode::SpawnLocal));
}

#[test]
fn readiness() {
    assert!(is_ready_line("✓ Ready in 2.3s"));
    assert!(is_ready_line("server started on port 20128"));
    assert!(is_ready_line("listening"));
    assert!(!is_ready_line("compiling ..."));
    assert!(is_ready_status(200));
    assert!(is_ready_status(404));
    assert!(!is_ready_status(500));
    assert!(!is_ready_status(503));
}

#[test]
fn navigation() {
    assert_eq!(navigation_url(Some("http://r"), true, Some("http://d"), 1), "http://r");
    assert_eq!(navigation_url(None, true, Some("http://d"), 1), "http://d");
    assert_eq!(navigation_url(None, true, None, 1), "http://localhost:3000");
    assert_eq!(navigation_url(None, false, None, 20128), "http://localhost:20128");
    assert_eq!(js_escape(r"a'b\c"), r"a\'b\\c");
    assert_eq!(
        navigation_script("http://x/?q='1'"),
        r"window.location.replace('http://x/?q=\'1\'');"
    );
}
