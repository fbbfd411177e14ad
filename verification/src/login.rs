//! The web-cookie login flow: its configuration, the one-login-at-a-time
//! manager, and the decisions of the polling loop (which cookies are the
//! credentials, when they are complete, and the timings and messages).
use vstd::prelude::*;
use crate::env_map::EnvMap;
use crate::text::{contains_spec, contains_str, decimal, decimal_spec, opt_string_view, str_eq};

verus! {

broadcast use vstd::seq::group_seq_axioms, vstd::map::group_map_axioms;

/// Where a token is read from.
pub struct TokenSource {
    /// `cookie`, `localStorage` or `sessionStorage`.
    pub kind: String,
    /// The cookie name or the storage key.
    pub name: String,
    /// For a cookie, the domain it must belong to.
    pub domain: Option<String>,
}

/// How to log in with one provider and which tokens to extract.
pub struct ExtractionConfig {
    pub provider_id: String,
    pub display_name: String,
    pub login_url: String,
    pub success_url_pattern: Option<String>,
    pub token_sources: Vec<TokenSource>,
    pub min_login_time: u64,
    pub poll_interval: u64,
    pub timeout: u64,
}

/// The outcome of a login.
pub struct LoginResult {
    pub success: bool,
    pub credentials: Option<EnvMap>,
    pub error: Option<String>,
}

/// The extraction configuration of a provider. None is bundled, so there is
/// none for any provider.
pub fn load_extraction_config(provider_id: &str) -> (r: Option<ExtractionConfig>)
    ensures
        r is None,
{
    None
}

/// A failed login with this error.
pub fn login_failure(error: String) -> (r: LoginResult)
    ensures
        !r.success,
        r.credentials is None,
        r.error matches Some(e) && e@ == error@,
{
    LoginResult { success: false, credentials: None, error: Some(error) }
}

/// The login in progress.
pub struct ActiveLogin {
    pub provider_id: String,
    pub window_label: String,
}

/// Keeps the one login that may run at a time.
pub struct LoginManager {
    active: Option<ActiveLogin>,
}

/// The error for a provider without extraction configuration.
pub open spec fn no_config_message(provider_id: Seq<char>) -> Seq<char> {
    "No extraction config for provider: "@ + provider_id
}

/// The error when a login is already running.
pub open spec fn busy_message() -> Seq<char> {
    "A login process is already in progress"@
}

/// The label of a provider's login window.
pub open spec fn login_window_label(provider_id: Seq<char>) -> Seq<char> {
    "login-"@ + provider_id
}

/// Starting a login for `provider_id` with `active` running: refused with
/// the busy message, or the new active provider and its window label.
pub open spec fn begin_spec(active: Option<Seq<char>>, provider_id: Seq<char>) -> (
    Option<Seq<char>>,
    Result<Seq<char>, Seq<char>>,
) {
    match active {
        Some(a) => (Some(a), Err(busy_message())),
        None => (Some(provider_id), Ok(login_window_label(provider_id))),
    }
}

/// How `start_login` answers.
pub enum LoginStart {
    /// The login does not start; this is the result.
    Refused(LoginResult),
    /// Open the window with this label on the configuration's login URL and
    /// poll.
    Begin { config: ExtractionConfig, window_label: String },
}

impl LoginManager {
    /// The provider whose login is running.
    pub closed spec fn active_provider(&self) -> Option<Seq<char>> {
        match self.active {
            Some(a) => Some(a.provider_id@),
            None => None,
        }
    }

    /// No login running.
    pub fn new() -> (r: LoginManager)
        ensures
            r.active_provider() is None,
    {
        LoginManager { active: None }
    }

    /// Registers a login for `provider_id` unless one is running.
    pub fn begin(&mut self, provider_id: &str) -> (r: Result<String, LoginResult>)
        ensures
            final(self).active_provider() == begin_spec(old(self).active_provider(), provider_id@).0,
            match begin_spec(old(self).active_provider(), provider_id@).1 {
                Ok(label) => r matches Ok(l) && l@ == label,
                Err(e) => r matches Err(res) && !res.success && res.credentials is None
                    && opt_string_view(res.error) == Some(e),
            },
    {
        if self.active.is_some() {
            return Err(login_failure("A login process is already in progress".to_owned()));
        }
        let mut label = "login-".to_owned();
        label.append(provider_id);
        self.active = Some(ActiveLogin { provider_id: provider_id.to_owned(), window_label: label.clone() });
        Ok(label)
    }

    /// Starts a login: refused without extraction configuration (always, as
    /// none is bundled) or while another runs; otherwise registered.
    pub fn start_login(&mut self, provider_id: &str) -> (r: LoginStart)
        ensures
            final(self).active_provider() == old(self).active_provider(),
            r matches LoginStart::Refused(res) && !res.success && res.credentials is None
                && opt_string_view(res.error) == Some(no_config_message(provider_id@)),
    {
        match load_extraction_config(provider_id) {
            None => {
                let mut m = "No extraction config for provider: ".to_owned();
                m.append(provider_id);
                LoginStart::Refused(login_failure(m))
            },
            Some(config) => match self.begin(provider_id) {
                Ok(window_label) => LoginStart::Begin { config, window_label },
                Err(res) => LoginStart::Refused(res),
            },
        }
    }

    /// Cancels the running login, if any.
    pub fn cancel(&mut self)
        ensures
            final(self).active_provider() is None,
    {
        self.active = None;
    }

    /// Forgets the finished login.
    pub fn cleanup(&mut self)
        ensures
            final(self).active_provider() is None,
    {
        self.active = None;
    }

    /// The provider whose login is running.
    pub fn get_active_provider(&self) -> (r: Option<String>)
        ensures
            opt_string_view(r) == self.active_provider(),
    {
        match &self.active {
            Some(a) => Some(a.provider_id.clone()),
            None => None,
        }
    }
}

/// One login at a time: once a login has begun, a second is refused until
/// the first is cancelled or cleaned up, after which a login begins again.
pub proof fn lemma_one_login_at_a_time(first: Seq<char>, second: Seq<char>)
    ensures
        begin_spec(begin_spec(None, first).0, second) == (Some(first), Err::<Seq<char>, Seq<char>>(busy_message())),
        begin_spec(None, second).1 == Ok::<Seq<char>, Seq<char>>(login_window_label(second)),
{
}

// ---------------------------------------------------------------------------
// Polling
// ---------------------------------------------------------------------------

/// A cookie read from the login window.
pub struct Cookie {
    pub name: String,
    pub domain: Option<String>,
    pub value: String,
}

/// `s` without its leading dots (`trim_start_matches('.')`).
pub open spec fn strip_leading_dots_spec(s: Seq<char>) -> Seq<char>
    decreases s.len(),
{
    if s.len() > 0 && s[0] == '.' {
        strip_leading_dots_spec(s.drop_first())
    } else {
        s
    }
}

fn strip_leading_dots(s: &str) -> (r: &str)
    ensures
        r@ == strip_leading_dots_spec(s@),
{
    let n = s.unicode_len();
    let mut a: usize = 0;
    assert(s@.subrange(0, n as int) =~= s@);
    while a < n && s.get_char(a) == '.'
        invariant
            n == s@.len(),
            a <= n,
            strip_leading_dots_spec(s@) == strip_leading_dots_spec(s@.subrange(a as int, n as int)),
        decreases n - a,
    {
        assert(s@.subrange(a as int, n as int).drop_first() =~= s@.subrange(a + 1, n as int));
        a = a + 1;
    }
    s.substring_char(a, n)
}

/// A token source as text: kind, name, domain.
pub open spec fn source_view(s: TokenSource) -> (Seq<char>, Seq<char>, Option<Seq<char>>) {
    (s.kind@, s.name@, opt_string_view(s.domain))
}

/// A cookie as text: name, domain, value.
pub open spec fn cookie_view(c: Cookie) -> (Seq<char>, Option<Seq<char>>, Seq<char>) {
    (c.name@, opt_string_view(c.domain), c.value@)
}

/// The cookie is the one the source asks for: same name and, when the
/// source names a domain, a cookie domain containing it (leading dots
/// dropped).
pub open spec fn cookie_matches(
    source: (Seq<char>, Seq<char>, Option<Seq<char>>),
    cookie: (Seq<char>, Option<Seq<char>>, Seq<char>),
) -> bool {
    &&& cookie.0 == source.1
    &&& match source.2 {
        None => true,
        Some(d) => match cookie.1 {
            Some(cd) => contains_spec(cd, strip_leading_dots_spec(d)),
            None => false,
        },
    }
}

/// `m` after looking at each cookie in turn for one source: each matching
/// cookie sets the source's name to its value.
pub open spec fn credentials_for_source(
    m: Map<Seq<char>, Seq<char>>,
    source: (Seq<char>, Seq<char>, Option<Seq<char>>),
    cookies: Seq<(Seq<char>, Option<Seq<char>>, Seq<char>)>,
) -> Map<Seq<char>, Seq<char>>
    decreases cookies.len(),
{
    if cookies.len() == 0 {
        m
    } else {
        let prev = credentials_for_source(m, source, cookies.drop_last());
        if cookie_matches(source, cookies.last()) {
            prev.insert(source.1, cookies.last().2)
        } else {
            prev
        }
    }
}

/// The credentials that the cookie sources find among the cookies.
pub open spec fn cookie_credentials_spec(
    sources: Seq<(Seq<char>, Seq<char>, Option<Seq<char>>)>,
    cookies: Seq<(Seq<char>, Option<Seq<char>>, Seq<char>)>,
) -> Map<Seq<char>, Seq<char>>
    decreases sources.len(),
{
    if sources.len() == 0 {
        Map::empty()
    } else {
        let prev = cookie_credentials_spec(sources.drop_last(), cookies);
        if sources.last().0 == "cookie"@ {
            credentials_for_source(prev, sources.last(), cookies)
        } else {
            prev
        }
    }
}

fn cookie_matches_exec(source: &TokenSource, cookie: &Cookie) -> (r: bool)
    ensures
        r == cookie_matches(source_view(*source), cookie_view(*cookie)),
{
    if !str_eq(cookie.name.as_str(), source.name.as_str()) {
        return false;
    }
    match &source.domain {
        None => true,
        Some(d) => {
            let clean = strip_leading_dots(d.as_str());
            match &cookie.domain {
                Some(cd) => contains_str(cd.as_str(), clean),
                None => false,
            }
        },
    }
}

/// The credentials that the cookie sources of `sources` find in `cookies`:
/// for each cookie source in order, each cookie in order with its name (and
/// domain, when the source names one) sets the source's name to the
/// cookie's value.
pub fn collect_cookie_credentials(sources: &Vec<TokenSource>, cookies: &Vec<Cookie>) -> (r: EnvMap)
    ensures
        r.wf(),
        r@ == cookie_credentials_spec(
            sources@.map_values(|s: TokenSource| source_view(s)),
            cookies@.map_values(|c: Cookie| cookie_view(c)),
        ),
{
    let ghost sv = sources@.map_values(|s: TokenSource| source_view(s));
    let ghost cv = cookies@.map_values(|c: Cookie| cookie_view(c));
    let mut creds = EnvMap::new();
    let n = sources.len();
    let m = cookies.len();
    let mut i: usize = 0;
    assert(sv.take(0) =~= Seq::<(Seq<char>, Seq<char>, Option<Seq<char>>)>::empty());
    while i < n
        invariant
            n == sources@.len(),
            m == cookies@.len(),
            sv == sources@.map_values(|s: TokenSource| source_view(s)),
            cv == cookies@.map_values(|c: Cookie| cookie_view(c)),
            i <= n,
            creds.wf(),
            creds@ == cookie_credentials_spec(sv.take(i as int), cv),
        decreases n - i,
    {
        let source = &sources[i];
        let ghost before = creds@;
        assert(sv.take(i + 1).drop_last() =~= sv.take(i as int));
        assert(sv.take(i + 1).last() == source_view(*source));
        if str_eq(source.kind.as_str(), "cookie") {
            let mut j: usize = 0;
            assert(cv.take(0) =~= Seq::<(Seq<char>, Option<Seq<char>>, Seq<char>)>::empty());
            while j < m
                invariant
                    m == cookies@.len(),
                    cv == cookies@.map_values(|c: Cookie| cookie_view(c)),
                    j <= m,
                    creds.wf(),
                    creds@ == credentials_for_source(before, source_view(*source), cv.take(j as int)),
                decreases m - j,
            {
                let cookie = &cookies[j];
                assert(cv.take(j + 1).drop_last() =~= cv.take(j as int));
                assert(cv.take(j + 1).last() == cookie_view(*cookie));
                if cookie_matches_exec(source, cookie) {
                    creds.insert(source.name.clone(), cookie.value.clone());
                }
                j = j + 1;
            }
            assert(cv.take(m as int) =~= cv);
        }
        i = i + 1;
    }
    assert(sv.take(n as int) =~= sv);
    creds
}

/// Every cookie source's name has a credential, and there is at least one
/// cookie source.
pub open spec fn all_found_spec(
    sources: Seq<(Seq<char>, Seq<char>, Option<Seq<char>>)>,
    creds: Map<Seq<char>, Seq<char>>,
) -> bool {
    &&& exists|i: int| 0 <= i < sources.len() && #[trigger] sources[i].0 == "cookie"@
    &&& forall|i: int| 0 <= i < sources.len() && #[trigger] sources[i].0 == "cookie"@ ==> creds.contains_key(sources[i].1)
}

/// Whether the login is complete: there are cookie sources and each has its
/// credential.
pub fn all_cookie_sources_found(sources: &Vec<TokenSource>, creds: &EnvMap) -> (r: bool)
    requires
        creds.wf(),
    ensures
        r == all_found_spec(sources@.map_values(|s: TokenSource| source_view(s)), creds@),
{
    let ghost sv = sources@.map_values(|s: TokenSource| source_view(s));
    let n = sources.len();
    let mut any = false;
    let mut i: usize = 0;
    while i < n
        invariant
            n == sources@.len(),
            sv == sources@.map_values(|s: TokenSource| source_view(s)),
            creds.wf(),
            i <= n,
            any == exists|k: int| 0 <= k < i && #[trigger] sv[k].0 == "cookie"@,
            forall|k: int| 0 <= k < i && #[trigger] sv[k].0 == "cookie"@ ==> creds@.contains_key(sv[k].1),
        decreases n - i,
    {
        let ghost before = any;
        assert(sv[i as int] == source_view(sources@[i as int]));
        if str_eq(sources[i].kind.as_str(), "cookie") {
            if !creds.contains_key(sources[i].name.as_str()) {
                assert(sv[i as int].0 == "cookie"@ && !creds@.contains_key(sv[i as int].1));
                return false;
            }
            any = true;
            assert(sv[i as int].0 == "cookie"@);
        } else {
            assert(sv[i as int].0 != "cookie"@);
            assert((exists|k: int| 0 <= k < i + 1 && #[trigger] sv[k].0 == "cookie"@) ==> before);
        }
        i = i + 1;
    }
    any
}

/// The polling timings in milliseconds: the wait before the first poll (at
/// least 5 s), the timeout (at least 5 min) and the interval (at least 1 s).
pub fn login_timings(config: &ExtractionConfig) -> (r: (u64, u64, u64))
    ensures
        r.0 == if config.min_login_time > 5000 { config.min_login_time } else { 5000 },
        r.1 == if config.timeout > 300000 { config.timeout } else { 300000 },
        r.2 == if config.poll_interval > 1000 { config.poll_interval } else { 1000 },
{
    let a = if config.min_login_time > 5000 { config.min_login_time } else { 5000 };
    let b = if config.timeout > 300000 { config.timeout } else { 300000 };
    let c = if config.poll_interval > 1000 { config.poll_interval } else { 1000 };
    (a, b, c)
}

/// Every 30th poll reports `Waiting for login... (<minutes>m)`.
pub fn waiting_message(poll_count: u32, elapsed_secs: u64) -> (r: Option<String>)
    ensures
        poll_count % 30 != 0 ==> r is None,
        poll_count % 30 == 0 ==> (r matches Some(m) && m@ == "Waiting for login... ("@ + decimal_spec(
            (elapsed_secs / 60) as nat,
        ) + "m)"@),
{
    if poll_count % 30 != 0 {
        return None;
    }
    let mut m = "Waiting for login... (".to_owned();
    let d = decimal(elapsed_secs / 60);
    m.append(d.as_str());
    m.append("m)");
    Some(m)
}

/// The polling loop's state: how many polls have run.
pub struct PollState {
    pub poll_count: u32,
}

/// What the polling loop learns before each decision.
pub enum PollEvent {
    /// The login was cancelled.
    Cancelled,
    /// A poll is due `elapsed_ms` after polling began, with these cookies in
    /// the login window.
    Poll { elapsed_ms: u64, cookies: Vec<Cookie> },
}

/// What the polling loop does next. `waiting`, when given, is reported as a
/// `waiting` status first.
pub enum PollAction {
    /// Sleep one poll interval (or until cancelled), then poll again.
    Continue { waiting: Option<String> },
    /// Stop: report `status` with `message`, close the window and answer
    /// `result`.
    Finish { waiting: Option<String>, status: &'static str, message: String, result: LoginResult },
}

/// A finish with this status, and a failure whose error is the message.
pub open spec fn is_failure_finish(r: PollAction, status: Seq<char>, message: Seq<char>) -> bool {
    match r {
        PollAction::Finish { waiting, status: st, message: m, result } => {
            &&& waiting is None
            &&& st@ == status
            &&& m@ == message
            &&& !result.success
            &&& result.credentials is None
            &&& opt_string_view(result.error) == Some(message)
        },
        _ => false,
    }
}

/// A successful finish with these credentials, after the given waiting
/// report.
pub open spec fn is_complete_finish(
    r: PollAction,
    waiting: Option<Seq<char>>,
    creds: Map<Seq<char>, Seq<char>>,
) -> bool {
    match r {
        PollAction::Finish { waiting: w, status, message, result } => {
            &&& opt_string_view(w) == waiting
            &&& status@ == "complete"@
            &&& message@ == "Credentials extracted successfully"@
            &&& result.success
            &&& result.error is None
            &&& match result.credentials {
                Some(c) => c.wf() && c@ == creds,
                None => false,
            }
        },
        _ => false,
    }
}

/// A continuation after the given waiting report.
pub open spec fn is_continue(r: PollAction, waiting: Option<Seq<char>>) -> bool {
    match r {
        PollAction::Continue { waiting: w } => opt_string_view(w) == waiting,
        _ => false,
    }
}

/// The waiting report of poll number `count`, `elapsed_ms` into polling.
pub open spec fn waiting_spec(count: u32, elapsed_ms: u64) -> Option<Seq<char>> {
    if count % 30 == 0 {
        Some("Waiting for login... ("@ + decimal_spec((elapsed_ms / 1000 / 60) as nat) + "m)"@)
    } else {
        None
    }
}

/// One decision of the polling loop. A cancellation stops it (`cancelled`,
/// `Login cancelled`); a poll at or past the timeout stops it (`error`,
/// `Login timed out`). Any other poll counts itself, reads the cookie
/// credentials and stops with them (`complete`) when every cookie source
/// has one, else continues; every 30th poll also reports how long the
/// login has been waiting.
pub fn poll_step(config: &ExtractionConfig, state: &mut PollState, event: &PollEvent) -> (r: PollAction)
    requires
        old(state).poll_count < u32::MAX,
    ensures
        match *event {
            PollEvent::Cancelled => final(state).poll_count == old(state).poll_count
                && is_failure_finish(r, "cancelled"@, "Login cancelled"@),
            PollEvent::Poll { elapsed_ms, cookies } => if elapsed_ms >= (if config.timeout > 300000 {
                config.timeout
            } else {
                300000
            }) {
                final(state).poll_count == old(state).poll_count && is_failure_finish(
                    r,
                    "error"@,
                    "Login timed out"@,
                )
            } else {
                let count = (old(state).poll_count + 1) as u32;
                let sv = config.token_sources@.map_values(|s: TokenSource| source_view(s));
                let creds = cookie_credentials_spec(sv, cookies@.map_values(|c: Cookie| cookie_view(c)));
                &&& final(state).poll_count == count
                &&& if all_found_spec(sv, creds) {
                    is_complete_finish(r, waiting_spec(count, elapsed_ms), creds)
                } else {
                    is_continue(r, waiting_spec(count, elapsed_ms))
                }
            },
        },
{
    match event {
        PollEvent::Cancelled => {
            PollAction::Finish {
                waiting: None,
                status: "cancelled",
                message: "Login cancelled".to_owned(),
                result: login_failure("Login cancelled".to_owned()),
            }
        },
        PollEvent::Poll { elapsed_ms, cookies } => {
            let (_, timeout, _) = login_timings(config);
            if *elapsed_ms >= timeout {
                return PollAction::Finish {
                    waiting: None,
                    status: "error",
                    message: "Login timed out".to_owned(),
                    result: login_failure("Login timed out".to_owned()),
                };
            }
            state.poll_count = state.poll_count + 1;
            let waiting = waiting_message(state.poll_count, *elapsed_ms / 1000);
            let creds = collect_cookie_credentials(&config.token_sources, cookies);
            if all_cookie_sources_found(&config.token_sources, &creds) {
                PollAction::Finish {
                    waiting,
                    status: "complete",
                    message: "Credentials extracted successfully".to_owned(),
                    result: LoginResult { success: true, credentials: Some(creds), error: None },
                }
            } else {
                PollAction::Continue { waiting }
            }
        },
    }
}

/// `k` names a browser storage.
pub open spec fn is_storage_kind(k: Seq<char>) -> bool {
    k == "localStorage"@ || k == "sessionStorage"@
}

/// The index of the first storage source, if any.
pub open spec fn is_first_storage_source(sv: Seq<(Seq<char>, Seq<char>, Option<Seq<char>>)>, i: int) -> bool {
    &&& 0 <= i < sv.len()
    &&& is_storage_kind(sv[i].0)
    &&& forall|j: int| 0 <= j < i ==> !is_storage_kind(#[trigger] sv[j].0)
}

/// The storage that the storage sources are read from: `localStorage` when
/// the first of them is a `localStorage` source, else `sessionStorage`;
/// none when there is no storage source.
pub fn storage_kind(sources: &Vec<TokenSource>) -> (r: Option<&'static str>)
    ensures
        r is None ==> forall|i: int|
            0 <= i < sources@.len() ==> !is_storage_kind(#[trigger] sources@[i].kind@),
        r matches Some(k) ==> exists|i: int|
            is_first_storage_source(sources@.map_values(|s: TokenSource| source_view(s)), i)
                && k@ == #[trigger] sources@[i].kind@,
{
    let ghost sv = sources@.map_values(|s: TokenSource| source_view(s));
    let n = sources.len();
    let mut i: usize = 0;
    while i < n
        invariant
            n == sources@.len(),
            sv == sources@.map_values(|s: TokenSource| source_view(s)),
            i <= n,
            forall|j: int| 0 <= j < i ==> !is_storage_kind(#[trigger] sources@[j].kind@),
        decreases n - i,
    {
        let k = sources[i].kind.as_str();
        if str_eq(k, "localStorage") {
            assert(is_first_storage_source(sv, i as int));
            return Some("localStorage");
        }
        if str_eq(k, "sessionStorage") {
            assert(is_first_storage_source(sv, i as int));
            return Some("sessionStorage");
        }
        i = i + 1;
    }
    None
}

} // verus!
