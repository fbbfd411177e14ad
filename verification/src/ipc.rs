//! The `ipc` command module's payload and URL check, which differ from the
//! command surface in `window`: its app info has no remote URL, and it
//! refuses unsafe URLs with an error.
use vstd::prelude::*;
use crate::remote_server::{is_http_scheme, is_http_scheme_spec, parse_url, parsed_view, url_parse_view, ParsedUrl};

verus! {

/// The app info of the `ipc` command module.
pub struct AppInfo {
    pub name: String,
    pub version: String,
    pub platform: String,
    pub is_dev: bool,
    pub port: u16,
}

/// The answer of the check for `url`, given what parsing it gave.
pub open spec fn is_url_check_answer(url: Seq<char>, parsed: Option<(Seq<char>, Seq<char>)>, r: Result<String, String>) -> bool {
    match parsed {
        None => r matches Err(m) && m@ == "Blocked invalid URL: "@ + url,
        Some(p) => if is_http_scheme_spec(p.0) {
            r matches Ok(u) && u@ == url
        } else {
            r matches Err(m) && m@ == "Blocked unsafe protocol: "@ + p.0
        },
    }
}

/// Checks a URL from its parse result: `Ok` with the URL itself when it is
/// an `http(s)` URL; `Blocked invalid URL: <url>` when it does not parse;
/// `Blocked unsafe protocol: <scheme>` otherwise.
pub fn check_parsed_external_url(url: &str, parsed: Option<ParsedUrl>) -> (r: Result<String, String>)
    ensures
        is_url_check_answer(url@, parsed_view(parsed), r),
{
    match parsed {
        None => {
            let mut m = "Blocked invalid URL: ".to_owned();
            m.append(url);
            Err(m)
        },
        Some(p) => {
            if is_http_scheme(p.scheme.as_str()) {
                Ok(url.to_owned())
            } else {
                let mut m = "Blocked unsafe protocol: ".to_owned();
                m.append(p.scheme.as_str());
                Err(m)
            }
        },
    }
}

/// Checks a URL for `open_external`: `Ok` with the URL itself when it is an
/// `http(s)` URL; `Blocked invalid URL: <url>` when it does not parse;
/// `Blocked unsafe protocol: <scheme>` otherwise.
pub fn check_external_url(url: &str) -> (r: Result<String, String>)
    ensures
        is_url_check_answer(url@, url_parse_view(url@), r),
{
    let parsed = parse_url(url);
    check_parsed_external_url(url, parsed)
}

} // verus!
