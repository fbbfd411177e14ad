//! Verified core of the OmniRoute desktop shell: the env-file format and the
//! secrets bootstrap, remote-server URLs, the embedded server's start-up
//! decisions, the tray menu, the login flow's state and the IPC payloads.
use vstd::prelude::*;

pub mod text;
pub mod paths;
pub mod env_map;
pub mod env_file;
pub mod random_hex;
pub mod env_bootstrap;
pub mod secrets;
pub mod remote_server;
pub mod server;
pub mod state;
pub mod tray;
pub mod login;
pub mod window;
pub mod ipc;
pub mod autostart;

verus! {

/// The `server-status` event payload.
pub struct ServerStatus {
    pub status: String,
    pub port: u16,
    pub remote_url: Option<String>,
}

/// The `port-changed` event payload.
pub struct PortChanged {
    pub port: u16,
}

/// The `update-status` event payload.
pub struct UpdateStatus {
    pub status: String,
    pub version: Option<String>,
    pub percent: Option<u64>,
    pub transferred: Option<u64>,
    pub total: Option<u64>,
    pub message: Option<String>,
}

/// The answer to `get_app_info`.
pub struct AppInfo {
    pub name: String,
    pub version: String,
    pub platform: String,
    pub is_dev: bool,
    pub port: u16,
    pub remote_server_url: Option<String>,
}

/// The `server-status` payload for `status` on `port`, with the remote URL
/// when there is one.
pub fn server_status(status: &str, port: u16, remote_url: Option<&str>) -> (r: ServerStatus)
    ensures
        r.status@ == status@,
        r.port == port,
        crate::text::opt_string_view(r.remote_url) == crate::text::opt_str_view(remote_url),
{
    ServerStatus {
        status: status.to_owned(),
        port,
        remote_url: match remote_url {
            Some(u) => Some(u.to_owned()),
            None => None,
        },
    }
}

/// The `port-changed` payload.
pub fn port_changed(port: u16) -> (r: PortChanged)
    ensures
        r.port == port,
{
    PortChanged { port }
}

/// Development mode: a debug build, or `NODE_ENV` set to `development`.
pub fn is_dev_mode(debug_build: bool, node_env: Option<&str>) -> (r: bool)
    ensures
        r == (debug_build || crate::text::opt_str_view(node_env) == Some("development"@)),
{
    if debug_build {
        return true;
    }
    match node_env {
        Some(v) => crate::text::str_eq(v, "development"),
        None => false,
    }
}

/// Whether the command line asks for a start hidden in the tray (an
/// argument `--hidden` or `--minimized`).
pub fn launched_hidden(args: &Vec<String>) -> (r: bool)
    ensures
        r == exists|i: int|
            0 <= i < args@.len() && (#[trigger] args@[i]@ == "--hidden"@ || args@[i]@ == "--minimized"@),
{
    let n = args.len();
    let mut i: usize = 0;
    while i < n
        invariant
            n == args@.len(),
            i <= n,
            forall|j: int| 0 <= j < i ==> !(#[trigger] args@[j]@ == "--hidden"@ || args@[j]@ == "--minimized"@),
        decreases n - i,
    {
        if crate::text::str_eq(args[i].as_str(), "--hidden") || crate::text::str_eq(args[i].as_str(), "--minimized") {
            return true;
        }
        i = i + 1;
    }
    false
}

/// Closing the main window hides it to the tray unless the app is quitting;
/// other windows close.
pub fn hide_instead_of_close(window_label: &str, is_quitting: bool) -> (r: bool)
    ensures
        r == (window_label@ == "main"@ && !is_quitting),
{
    crate::text::str_eq(window_label, "main") && !is_quitting
}

} // verus!
