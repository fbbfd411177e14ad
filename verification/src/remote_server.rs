//! Remote-server mode: which URL the shell connects to instead of spawning
//! its own server, how a URL entered by the user is normalized and checked,
//! and what changing it entails.
use vstd::prelude::*;
use crate::text::{
    lemma_trim_is_trimmed, lemma_trim_of_trimmed, nonblank, nonblank_spec, opt_str_view,
    opt_string_view, str_eq, trim_spec,
};

verus! {

broadcast use vstd::seq::group_seq_axioms;

/// A URL as the library reads it: its scheme and its serialization.
pub struct ParsedUrl {
    pub scheme: String,
    pub href: String,
}

/// A parse result as text: the scheme and the serialization.
pub open spec fn parsed_view(p: Option<ParsedUrl>) -> Option<(Seq<char>, Seq<char>)> {
    match p {
        Some(u) => Some((u.scheme@, u.href@)),
        None => None,
    }
}

/// The scheme and serialization of the URL that `url::Url::parse` makes of
/// `s`, or `None` when it rejects `s`.
pub uninterp spec fn url_parse_view(s: Seq<char>) -> Option<(Seq<char>, Seq<char>)>;

/// `url::Url::parse` (url 2.5) on `s`, read through `Url::scheme` and
/// `Url::as_str`. The contract names the result and claims only that it is a
/// function of `s` (`url_parse_view`); what the WHATWG URL Standard makes of
/// a string is not restated here.
#[verifier::external_body]
pub(crate) fn parse_url(s: &str) -> (r: Option<ParsedUrl>)
    ensures
        parsed_view(r) == url_parse_view(s@),
{
    match url::Url::parse(s) {
        Ok(u) => Some(ParsedUrl { scheme: u.scheme().to_owned(), href: u.as_str().to_owned() }),
        Err(_) => None,
    }
}

/// `scheme` is `http` or `https`.
pub open spec fn is_http_scheme_spec(scheme: Seq<char>) -> bool {
    scheme == "http"@ || scheme == "https"@
}

/// A parse result whose scheme is `http` or `https`.
pub open spec fn is_http_parsed(p: Option<(Seq<char>, Seq<char>)>) -> bool {
    match p {
        Some(u) => is_http_scheme_spec(u.0),
        None => false,
    }
}

/// `s` parses as a URL whose scheme is `http` or `https`.
pub open spec fn is_http_url(s: Seq<char>) -> bool {
    is_http_parsed(url_parse_view(s))
}

/// Whether `scheme` is `http` or `https`.
pub fn is_http_scheme(scheme: &str) -> (r: bool)
    ensures
        r == is_http_scheme_spec(scheme@),
{
    str_eq(scheme, "http") || str_eq(scheme, "https")
}

/// Whether a parse result is an `http` or `https` URL.
pub fn parsed_is_http(p: &Option<ParsedUrl>) -> (r: bool)
    ensures
        r == is_http_parsed(parsed_view(*p)),
{
    match p {
        Some(u) => is_http_scheme(u.scheme.as_str()),
        None => false,
    }
}

/// Whether `s` parses as an `http` or `https` URL.
pub fn is_valid_http_url(s: &str) -> (r: bool)
    ensures
        r == is_http_url(s@),
{
    let p = parse_url(s);
    parsed_is_http(&p)
}

/// `s` without its trailing slashes.
pub open spec fn strip_slashes_spec(s: Seq<char>) -> Seq<char>
    decreases s.len(),
{
    if s.len() > 0 && s.last() == '/' {
        strip_slashes_spec(s.drop_last())
    } else {
        s
    }
}

/// Removes every trailing `/`.
pub fn strip_trailing_slash(s: &str) -> (r: String)
    ensures
        r@ == strip_slashes_spec(s@),
        r@.len() > 0 ==> r@.last() != '/',
{
    let n = s.unicode_len();
    let mut e: usize = n;
    assert(s@.subrange(0, n as int) =~= s@);
    while e > 0 && s.get_char(e - 1) == '/'
        invariant
            n == s@.len(),
            e <= n,
            strip_slashes_spec(s@) == strip_slashes_spec(s@.subrange(0, e as int)),
        decreases e,
    {
        assert(s@.subrange(0, e as int).drop_last() =~= s@.subrange(0, e - 1));
        e = e - 1;
    }
    s.substring_char(0, e).to_owned()
}

/// The remote-server URL to use at start-up, from the `OMNIROUTE_REMOTE_URL`
/// variable and the `remote_server_url` preference: the first of the two
/// that is set, not blank and an `http(s)` URL once trimmed, with its
/// trailing slashes removed.
pub open spec fn resolve_remote_url_spec(
    env_url: Option<Seq<char>>,
    prefs_url: Option<Seq<char>>,
) -> Option<Seq<char>> {
    if nonblank_spec(env_url) is Some && is_http_url(nonblank_spec(env_url)->0) {
        Some(strip_slashes_spec(nonblank_spec(env_url)->0))
    } else if nonblank_spec(prefs_url) is Some && is_http_url(nonblank_spec(prefs_url)->0) {
        Some(strip_slashes_spec(nonblank_spec(prefs_url)->0))
    } else {
        None
    }
}

/// Resolves the remote-server URL from the environment variable's value and
/// the stored preference (each `None` when absent or unreadable).
pub fn resolve_remote_url(env_url: Option<&str>, prefs_url: Option<&str>) -> (r: Option<String>)
    ensures
        opt_string_view(r) == resolve_remote_url_spec(opt_str_view(env_url), opt_str_view(prefs_url)),
{
    if let Some(u) = nonblank(env_url) {
        if is_valid_http_url(u) {
            return Some(strip_trailing_slash(u));
        }
    }
    if let Some(u) = nonblank(prefs_url) {
        if is_valid_http_url(u) {
            return Some(strip_trailing_slash(u));
        }
    }
    None
}

/// The URL to store as the preference: trimmed, and absent when blank.
pub fn normalized_remote_url(url: Option<&str>) -> (r: Option<String>)
    ensures
        opt_string_view(r) == nonblank_spec(opt_str_view(url)),
{
    match nonblank(url) {
        Some(u) => Some(u.to_owned()),
        None => None,
    }
}

/// What switching the remote-server URL entails.
pub enum RemoteUrlChange {
    /// The URL is not an `http(s)` URL: nothing changes.
    Rejected,
    /// The URL is the one in use: nothing changes.
    Unchanged,
    /// Stop the local server, store `url`, and connect to it; with `None`,
    /// go back to a local server (spawning it).
    Switch { url: Option<String> },
}

/// Decides what setting the remote-server URL to `next` does, with
/// `current` in use: the trimmed, non-blank `next` must be an `http(s)` URL,
/// and a change to the URL in use is none.
pub fn plan_remote_url_change(current: Option<&str>, next: Option<&str>) -> (r: RemoteUrlChange)
    ensures
        ({
            let n = nonblank_spec(opt_str_view(next));
            match r {
                RemoteUrlChange::Rejected => n matches Some(u) && !is_http_url(u),
                RemoteUrlChange::Unchanged => (n is None || is_http_url(n->0)) && n == opt_str_view(
                    current,
                ),
                RemoteUrlChange::Switch { url } => (n is None || is_http_url(n->0)) && n
                    != opt_str_view(current) && opt_string_view(url) == n,
            }
        }),
{
    let normalized = nonblank(next);
    if let Some(u) = normalized {
        if !is_valid_http_url(u) {
            return RemoteUrlChange::Rejected;
        }
    }
    let same = match (normalized, current) {
        (Some(a), Some(b)) => str_eq(a, b),
        (None, None) => true,
        _ => false,
    };
    if same {
        RemoteUrlChange::Unchanged
    } else {
        RemoteUrlChange::Switch { url: normalized_remote_url(next) }
    }
}

/// The URL the connection prompt starts with: the one in use, or nothing.
pub fn get_initial_url(remote_server_url: Option<&str>) -> (r: String)
    ensures
        r@ == match opt_str_view(remote_server_url) {
            Some(u) => u,
            None => Seq::<char>::empty(),
        },
{
    match remote_server_url {
        Some(u) => u.to_owned(),
        None => String::new(),
    }
}

/// A remote URL that the shell switches to is the one it connects to at the
/// next start, up to trailing slashes: the preference stores the normalized
/// URL, and resolving it (with `OMNIROUTE_REMOTE_URL` unset) gives it back
/// without its trailing slashes.
pub proof fn lemma_switched_url_restored(current: Option<Seq<char>>, next: Option<Seq<char>>)
    requires
        nonblank_spec(next) matches Some(u) && is_http_url(u),
    ensures
        resolve_remote_url_spec(None, nonblank_spec(nonblank_spec(next))) == Some(
            strip_slashes_spec(nonblank_spec(next)->0),
        ),
{
    let u = nonblank_spec(next)->0;
    lemma_trim_is_trimmed(next->0);
    lemma_trim_of_trimmed(u);
    assert(trim_spec(u) == u);
    assert(nonblank_spec(Some(u)) == Some(u));
}

} // verus!
