//! The shell's own state: development mode, the server port, the remote
//! server in use and whether the app is quitting.
use vstd::prelude::*;
use crate::paths::{is_path_from, is_path_under, join, path_at, path_under, parts_view, PathBase, PlannedPath};
use crate::server::DEFAULT_PORT;
use crate::text::{nonblank, nonblank_spec, opt_str_view};

verus! {

/// The state the shell changes as it runs. (The data directory and the
/// server process handle stay with the application.)
pub struct AppState {
    /// Running from `tauri dev` or with `NODE_ENV=development`.
    pub is_dev: bool,
    /// The port of the embedded server.
    pub port: u16,
    /// The remote server connected to instead of the embedded one.
    pub remote_server_url: Option<String>,
    /// The app is quitting: closing the main window really closes it.
    pub is_quitting: bool,
}

impl AppState {
    /// Sets the port that the embedded server is spawned on next.
    pub fn set_port(&mut self, port: u16)
        ensures
            final(self).port == port,
            final(self).is_dev == old(self).is_dev,
            final(self).remote_server_url == old(self).remote_server_url,
            final(self).is_quitting == old(self).is_quitting,
    {
        self.port = port;
    }

    /// Marks the app as quitting.
    pub fn mark_quitting(&mut self)
        ensures
            final(self).is_quitting,
            final(self).port == old(self).port,
            final(self).is_dev == old(self).is_dev,
            final(self).remote_server_url == old(self).remote_server_url,
    {
        self.is_quitting = true;
    }
}

/// The state at launch: the default port, production, no remote server,
/// not quitting.
pub fn initial_state() -> (r: AppState)
    ensures
        r.port == DEFAULT_PORT,
        !r.is_dev,
        r.remote_server_url is None,
        !r.is_quitting,
{
    AppState { is_dev: false, port: DEFAULT_PORT, remote_server_url: None, is_quitting: false }
}

/// Where the data directory is: `DATA_DIR` when not blank; on Windows
/// `<APPDATA>/omniroute` when `APPDATA` is set, else
/// `~/AppData/Roaming/omniroute`; elsewhere `<XDG_CONFIG_HOME>/omniroute`
/// when not blank, else `~/.omniroute`; `.omniroute` when there is no home.
pub fn resolve_data_dir(
    data_dir_env: Option<&str>,
    windows: bool,
    appdata_set: bool,
    xdg_config_home: Option<&str>,
    home_known: bool,
) -> (r: PlannedPath)
    ensures
        nonblank_spec(opt_str_view(data_dir_env)) matches Some(d) ==> is_path_from(r, d, seq![]),
        nonblank_spec(opt_str_view(data_dir_env)) is None ==> if windows {
            if appdata_set {
                is_path_under(r, PathBase::AppData, seq!["omniroute"@])
            } else if home_known {
                is_path_under(r, PathBase::Home, seq!["AppData"@, "Roaming"@, "omniroute"@])
            } else {
                is_path_from(r, ".omniroute"@, seq![])
            }
        } else {
            if nonblank_spec(opt_str_view(xdg_config_home)) is Some {
                is_path_from(
                    r,
                    nonblank_spec(opt_str_view(xdg_config_home))->0,
                    seq!["omniroute"@],
                )
            } else if home_known {
                is_path_under(r, PathBase::Home, seq![".omniroute"@])
            } else {
                is_path_from(r, ".omniroute"@, seq![])
            }
        },
{
    if let Some(d) = nonblank(data_dir_env) {
        return path_at(PathBase::Given(d.to_owned()));
    }
    if windows {
        if appdata_set {
            return path_under(PathBase::AppData, "omniroute");
        }
        if home_known {
            let p = path_under(PathBase::Home, "AppData");
            let p = join(p, "Roaming");
            let r = join(p, "omniroute");
            assert(parts_view(r) =~= seq!["AppData"@, "Roaming"@, "omniroute"@]);
            return r;
        }
    } else {
        if let Some(x) = nonblank(xdg_config_home) {
            return path_under(PathBase::Given(x.to_owned()), "omniroute");
        }
        if home_known {
            return path_under(PathBase::Home, ".omniroute");
        }
    }
    path_at(PathBase::Given(".omniroute".to_owned()))
}

} // verus!
