//! The IPC command surface's decisions and payloads: app info, which
//! external URLs may be opened, the login stubs, update statuses and the
//! autostart status.
use vstd::prelude::*;
use crate::login::LoginResult;
use crate::remote_server::{is_http_scheme, is_http_scheme_spec, parse_url, parsed_view, url_parse_view, ParsedUrl};
use crate::state::AppState;
use crate::text::{opt_string_view, str_eq};
use crate::{AppInfo, UpdateStatus};

verus! {

/// The app info for the renderer.
pub fn get_app_info(name: &str, version: &str, platform: &str, state: &AppState) -> (r: AppInfo)
    ensures
        r.name@ == name@,
        r.version@ == version@,
        r.platform@ == platform@,
        r.is_dev == state.is_dev,
        r.port == state.port,
        opt_string_view(r.remote_server_url) == opt_string_view(state.remote_server_url),
{
    AppInfo {
        name: name.to_owned(),
        version: version.to_owned(),
        platform: platform.to_owned(),
        is_dev: state.is_dev,
        port: state.port,
        remote_server_url: match &state.remote_server_url {
            Some(u) => Some(u.clone()),
            None => None,
        },
    }
}

/// What `open_external` does with a URL.
pub enum ExternalUrl {
    /// It does not parse: fail with this message.
    Invalid(String),
    /// Its scheme (given) is not `http` or `https`: do nothing.
    Blocked(String),
    /// Open this serialization of it in the browser.
    Open(String),
}

/// The answer to `open_external` for `url`, given what parsing it gave.
pub open spec fn is_external_url_answer(url: Seq<char>, parsed: Option<(Seq<char>, Seq<char>)>, r: ExternalUrl) -> bool {
    match parsed {
        None => r matches ExternalUrl::Invalid(m) && m@ == "invalid URL: "@ + url,
        Some(p) => if is_http_scheme_spec(p.0) {
            r matches ExternalUrl::Open(h) && h@ == p.1
        } else {
            r matches ExternalUrl::Blocked(s) && s@ == p.0
        },
    }
}

/// Decides `open_external` for `url` from its parse result: a URL that does
/// not parse is an error `invalid URL: <url>`; an `http` or `https` URL is
/// opened in its parsed serialization; any other scheme is blocked.
pub fn external_url_answer(url: &str, parsed: Option<ParsedUrl>) -> (r: ExternalUrl)
    ensures
        is_external_url_answer(url@, parsed_view(parsed), r),
{
    match parsed {
        None => {
            let mut m = "invalid URL: ".to_owned();
            m.append(url);
            ExternalUrl::Invalid(m)
        },
        Some(p) => {
            if is_http_scheme(p.scheme.as_str()) {
                ExternalUrl::Open(p.href)
            } else {
                ExternalUrl::Blocked(p.scheme)
            }
        },
    }
}

/// Decides `open_external` for `url`: only `http` and `https` URLs are
/// opened (in their parsed serialization); an unparsable one is an error
/// `invalid URL: <url>`; any other scheme is blocked.
pub fn open_external(url: &str) -> (r: ExternalUrl)
    ensures
        is_external_url_answer(url@, url_parse_view(url@), r),
{
    let parsed = parse_url(url);
    external_url_answer(url, parsed)
}

/// The error of the web-cookie login, which this shell does not implement.
pub open spec fn login_unavailable_message(provider_id: Seq<char>) -> Seq<char> {
    "Web-cookie login for '"@ + provider_id
        + "' is not yet implemented in the Tauri desktop shell. Use the Next.js dashboard's server-side OAuth flow instead, or run the Electron build to perform this login once."@
}

/// The web-cookie login: always a failure saying it is not implemented.
pub fn start_login(provider_id: &str) -> (r: LoginResult)
    ensures
        !r.success,
        r.credentials is None,
        opt_string_view(r.error) == Some(login_unavailable_message(provider_id@)),
{
    let mut m = "Web-cookie login for '".to_owned();
    m.append(provider_id);
    m.append("' is not yet implemented in the Tauri desktop shell. Use the Next.js dashboard's server-side OAuth flow instead, or run the Electron build to perform this login once.");
    LoginResult { success: false, error: Some(m), credentials: None }
}

/// Whether a web-cookie login is running: never, in this shell.
pub fn get_login_status() -> (active: bool)
    ensures
        !active,
{
    false
}

/// An update status with only its `status`.
pub fn update_status(status: &str) -> (r: UpdateStatus)
    ensures
        r.status@ == status@,
        r.version is None,
        r.percent is None,
        r.transferred is None,
        r.total is None,
        r.message is None,
{
    UpdateStatus {
        status: status.to_owned(),
        version: None,
        percent: None,
        transferred: None,
        total: None,
        message: None,
    }
}

/// In development the update check is skipped; unless it was a silent
/// check, the renderer is told why.
pub fn dev_mode_update_status(silent: bool) -> (r: Option<UpdateStatus>)
    ensures
        silent ==> r is None,
        !silent ==> (r matches Some(u) && u.status@ == "error"@ && opt_string_view(u.message) == Some(
            "Updates disabled in dev mode"@,
        ) && u.version is None && u.percent is None),
{
    if silent {
        return None;
    }
    let mut u = update_status("error");
    u.message = Some("Updates disabled in dev mode".to_owned());
    Some(u)
}

/// The status for an update found with this version; `progress` is the
/// percentage for `downloading` (0) and `downloaded` (100) statuses.
pub fn update_status_with_version(status: &str, version: &str, progress: Option<u64>) -> (r: UpdateStatus)
    ensures
        r.status@ == status@,
        opt_string_view(r.version) == Some(version@),
        r.percent == progress,
        r.transferred is None,
        r.total is None,
        r.message is None,
{
    let mut u = update_status(status);
    u.version = Some(version.to_owned());
    u.percent = progress;
    u
}

/// The autostart status: enabled when the Linux desktop entry exists or the
/// autostart plugin reports it enabled (`None` when the plugin fails).
pub fn get_autostart_status(linux_desktop_entry: bool, plugin_enabled: Option<bool>) -> (r: bool)
    ensures
        r == (linux_desktop_entry || plugin_enabled == Some(true)),
{
    if linux_desktop_entry {
        return true;
    }
    match plugin_enabled {
        Some(b) => b,
        None => false,
    }
}

} // verus!
