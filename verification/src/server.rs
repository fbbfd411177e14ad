//! The embedded Next.js server: which script and which Node.js binary to
//! start, the environment and heap it gets, the URLs it answers on, when it
//! counts as ready, and where the main window is sent.
use vstd::prelude::*;
use crate::env_map::EnvMap;
use crate::paths::{join, parts_view, path_under, PathBase, PlannedPath};
use crate::text::{
    contains_spec, contains_str, decimal, decimal_spec, nonblank, nonblank_spec, opt_str_view, opt_string_view,
    parse_u64, parse_u64_spec, trim, trim_spec, digit_char, is_white_space, not_white_space, first_idx, is_first_idx,
    is_end_idx, lemma_first_idx_exists, lemma_first_idx_is, lemma_end_idx_is, trim_start_spec,
};

verus! {

broadcast use vstd::seq::group_seq_axioms, vstd::map::group_map_axioms;

/// The default port of the embedded server.
pub const DEFAULT_PORT: u16 = 20128;

// ---------------------------------------------------------------------------
// Server script and Node.js binary
// ---------------------------------------------------------------------------

/// The script that starts the server.
pub enum ServerEntry {
    /// `server-ws.mjs`, the server with WebSocket support.
    ServerWs,
    /// `server.js`, the plain standalone server.
    ServerJs,
}

impl ServerEntry {
    /// The script's file name in the server directory.
    pub fn file_name(&self) -> (r: &'static str)
        ensures
            r@ == match self {
                ServerEntry::ServerWs => "server-ws.mjs"@,
                ServerEntry::ServerJs => "server.js"@,
            },
    {
        match self {
            ServerEntry::ServerWs => "server-ws.mjs",
            ServerEntry::ServerJs => "server.js",
        }
    }
}

/// The message when the server directory (shown as `server_dir`) holds
/// neither script.
pub open spec fn missing_entry_message(server_dir: Seq<char>) -> Seq<char> {
    "neither server-ws.mjs nor server.js found in "@ + server_dir
}

/// Picks the server script: `server-ws.mjs` when it exists, else
/// `server.js` when it exists, else an error naming the directory.
pub fn resolve_server_entry(server_dir: &str, ws_exists: bool, js_exists: bool) -> (r: Result<
    ServerEntry,
    String,
>)
    ensures
        ws_exists ==> r matches Ok(ServerEntry::ServerWs),
        !ws_exists && js_exists ==> r matches Ok(ServerEntry::ServerJs),
        !ws_exists && !js_exists ==> (r matches Err(m) && m@ == missing_entry_message(server_dir@)),
{
    if ws_exists {
        return Ok(ServerEntry::ServerWs);
    }
    if js_exists {
        return Ok(ServerEntry::ServerJs);
    }
    let mut m = "neither server-ws.mjs nor server.js found in ".to_owned();
    m.append(server_dir);
    Err(m)
}

/// The Node.js binary from the `OMNIROUTE_NODE_PATH` variable when it is
/// set and not blank (trimmed), else `node` from the `PATH`.
pub fn resolve_node_executable(env_override: Option<&str>) -> (r: String)
    ensures
        r@ == match nonblank_spec(opt_str_view(env_override)) {
            Some(p) => p,
            None => "node"@,
        },
{
    match nonblank(env_override) {
        Some(p) => p.to_owned(),
        None => "node".to_owned(),
    }
}

/// Where a portable Node.js bundled as a resource may be, in order:
/// `app/node/node.exe`, `app/node/bin/node.exe`, `app/node/bin/node`,
/// `app/node/node`, all under the resource directory.
pub fn bundled_node_paths() -> (r: Vec<PlannedPath>)
    ensures
        r@.len() == 4,
        forall|i: int| 0 <= i < 4 ==> #[trigger] r@[i].base == PathBase::ResourceDir,
        parts_view(r@[0]) == seq!["app"@, "node"@, "node.exe"@],
        parts_view(r@[1]) == seq!["app"@, "node"@, "bin"@, "node.exe"@],
        parts_view(r@[2]) == seq!["app"@, "node"@, "bin"@, "node"@],
        parts_view(r@[3]) == seq!["app"@, "node"@, "node"@],
{
    let mut r: Vec<PlannedPath> = Vec::new();
    let p0 = join(join(path_under(PathBase::ResourceDir, "app"), "node"), "node.exe");
    let p1 = join(join(join(path_under(PathBase::ResourceDir, "app"), "node"), "bin"), "node.exe");
    let p2 = join(join(join(path_under(PathBase::ResourceDir, "app"), "node"), "bin"), "node");
    let p3 = join(join(path_under(PathBase::ResourceDir, "app"), "node"), "node");
    assert(parts_view(p0) =~= seq!["app"@, "node"@, "node.exe"@]);
    assert(parts_view(p1) =~= seq!["app"@, "node"@, "bin"@, "node.exe"@]);
    assert(parts_view(p2) =~= seq!["app"@, "node"@, "bin"@, "node"@]);
    assert(parts_view(p3) =~= seq!["app"@, "node"@, "node"@]);
    r.push(p0);
    r.push(p1);
    r.push(p2);
    r.push(p3);
    r
}

/// Which Node.js binary starts the server.
pub enum NodeExecutable {
    /// The path that `OMNIROUTE_NODE_PATH` gives.
    Override(String),
    /// The bundled candidate at this index of `bundled_node_paths()`.
    Bundled(usize),
    /// `node` from the `PATH`.
    OnPath,
}

/// Picks the Node.js binary: `OMNIROUTE_NODE_PATH` when set and not blank;
/// else the first bundled candidate that exists (`bundled_exists[i]` for
/// candidate `i`; `None` when the resource directory is unknown); else `node`
/// from the `PATH`.
pub fn resolve_node_executable_with_app(env_override: Option<&str>, bundled_exists: Option<&[bool]>) -> (r: NodeExecutable)
    ensures
        nonblank_spec(opt_str_view(env_override)) matches Some(p) ==> (r matches NodeExecutable::Override(o) && o@ == p),
        nonblank_spec(opt_str_view(env_override)) is None ==> match r {
            NodeExecutable::Override(_) => false,
            NodeExecutable::Bundled(i) => (bundled_exists matches Some(e) && i < e@.len() && e@[i as int]
                && forall|j: int| 0 <= j < i ==> !#[trigger] e@[j]),
            NodeExecutable::OnPath => bundled_exists matches Some(e) ==> forall|j: int|
                0 <= j < e@.len() ==> !#[trigger] e@[j],
        },
{
    if let Some(p) = nonblank(env_override) {
        return NodeExecutable::Override(p.to_owned());
    }
    if let Some(e) = bundled_exists {
        let n = e.len();
        let mut i: usize = 0;
        while i < n
            invariant
                n == e@.len(),
                i <= n,
                bundled_exists == Some(e),
                nonblank_spec(opt_str_view(env_override)) is None,
                forall|j: int| 0 <= j < i ==> !#[trigger] e@[j],
            decreases n - i,
        {
            if e[i] {
                return NodeExecutable::Bundled(i);
            }
            i = i + 1;
        }
    }
    NodeExecutable::OnPath
}

// ---------------------------------------------------------------------------
// Heap size
// ---------------------------------------------------------------------------

#[verifier::external_type_specification]
#[verifier::external_body]
pub struct ExSystem(sysinfo::System);

/// `sysinfo::System::new_all` (sysinfo 0.33): a snapshot of the machine.
/// Nothing is stated of it: it depends on the machine.
#[verifier::external_body]
fn system_new_all() -> sysinfo::System {
    sysinfo::System::new_all()
}

/// `sysinfo::System::total_memory` (sysinfo 0.33): the RAM size in bytes.
/// Nothing is stated of the value: it depends on the machine.
#[verifier::external_body]
fn total_memory(system: &sysinfo::System) -> u64 {
    system.total_memory()
}

/// The heap size in MiB from the machine's RAM size in bytes: 35% of it,
/// clamped to [512, 4096]; 512 when the RAM size is under 1 MiB.
pub open spec fn heap_from_total_spec(total_memory_bytes: u64) -> u64 {
    let total_mb = total_memory_bytes / 1024 / 1024;
    if total_mb == 0 {
        512
    } else {
        let share = total_mb * 35 / 100;
        if share < 512 {
            512
        } else if share > 4096 {
            4096
        } else {
            share as u64
        }
    }
}

/// The value of `OMNIROUTE_MEMORY_MB` when it is a number (trimmed) in
/// [64, 16384].
pub open spec fn explicit_heap_spec(explicit: Option<Seq<char>>) -> Option<u64> {
    match explicit {
        Some(e) => match parse_u64_spec(trim_spec(e)) {
            Some(mb) => if 64 <= mb && mb <= 16384 {
                Some(mb)
            } else {
                None
            },
            None => None,
        },
        None => None,
    }
}

/// The V8 heap size for the server: `OMNIROUTE_MEMORY_MB` when valid, else
/// derived from the RAM size.
pub open spec fn heap_mb_spec(explicit: Option<Seq<char>>, total_memory_bytes: u64) -> u64 {
    match explicit_heap_spec(explicit) {
        Some(mb) => mb,
        None => heap_from_total_spec(total_memory_bytes),
    }
}

fn explicit_heap(explicit: Option<&str>) -> (r: Option<u64>)
    ensures
        r == explicit_heap_spec(opt_str_view(explicit)),
{
    match explicit {
        Some(e) => match parse_u64(trim(e)) {
            Some(mb) => if 64 <= mb && mb <= 16384 {
                Some(mb)
            } else {
                None
            },
            None => None,
        },
        None => None,
    }
}

/// The heap size from the RAM size in bytes.
pub fn heap_from_total(total_memory_bytes: u64) -> (r: u64)
    ensures
        r == heap_from_total_spec(total_memory_bytes),
        512 <= r <= 4096,
{
    let total_mb = total_memory_bytes / 1024 / 1024;
    if total_mb == 0 {
        return 512;
    }
    let share = total_mb * 35 / 100;
    if share < 512 {
        512
    } else if share > 4096 {
        4096
    } else {
        share
    }
}

/// The heap size from the value of `OMNIROUTE_MEMORY_MB` and the RAM size.
pub fn heap_mb_for(explicit: Option<&str>, total_memory_bytes: u64) -> (r: u64)
    ensures
        r == heap_mb_spec(opt_str_view(explicit), total_memory_bytes),
        64 <= r <= 16384,
{
    match explicit_heap(explicit) {
        Some(mb) => mb,
        None => heap_from_total(total_memory_bytes),
    }
}

/// The heap size for the server, reading the RAM size only when
/// `OMNIROUTE_MEMORY_MB` (`explicit`) is not a valid size.
pub fn compute_heap_mb(explicit: Option<&str>) -> (r: u64)
    ensures
        explicit_heap_spec(opt_str_view(explicit)) matches Some(mb) ==> r == mb,
        explicit_heap_spec(opt_str_view(explicit)) is None ==> exists|total: u64|
            r == #[trigger] heap_from_total_spec(total),
        64 <= r <= 16384,
{
    match explicit_heap(explicit) {
        Some(mb) => mb,
        None => {
            let system = system_new_all();
            let total = total_memory(&system);
            heap_from_total(total)
        },
    }
}

/// `NODE_OPTIONS` for the server: the existing options when they already
/// set `--max-old-space-size`, else the existing options followed by
/// `--max-old-space-size=<heap_mb>`, trimmed.
pub open spec fn node_options_spec(existing: Seq<char>, heap_mb: u64) -> Seq<char> {
    if contains_spec(existing, "--max-old-space-size"@) {
        existing
    } else {
        trim_spec(existing + " --max-old-space-size="@ + decimal_spec(heap_mb as nat))
    }
}

/// Computes `NODE_OPTIONS` for the server.
pub fn node_options(existing: &str, heap_mb: u64) -> (r: String)
    ensures
        r@ == node_options_spec(existing@, heap_mb),
{
    if contains_str(existing, "--max-old-space-size") {
        return existing.to_owned();
    }
    let mut s = existing.to_owned();
    s.append(" --max-old-space-size=");
    let d = decimal(heap_mb);
    s.append(d.as_str());
    trim(s.as_str()).to_owned()
}

// ---------------------------------------------------------------------------
// Environment and URLs
// ---------------------------------------------------------------------------

/// `http://localhost:<port>`.
pub open spec fn local_url_spec(port: u16) -> Seq<char> {
    "http://localhost:"@ + decimal_spec(port as nat)
}

/// `http://localhost:<port>/api/monitoring/health`.
pub open spec fn health_url_spec(port: u16) -> Seq<char> {
    local_url_spec(port) + "/api/monitoring/health"@
}

/// The URL of the embedded server.
pub fn local_server_url(port: u16) -> (r: String)
    ensures
        r@ == local_url_spec(port),
{
    let mut s = "http://localhost:".to_owned();
    let d = decimal(port as u64);
    s.append(d.as_str());
    s
}

/// The URL polled until the embedded server is ready.
pub fn health_url(port: u16) -> (r: String)
    ensures
        r@ == health_url_spec(port),
{
    let mut s = local_server_url(port);
    s.append("/api/monitoring/health");
    s
}

/// `env` with `PORT`, `NODE_ENV` and `DATA_DIR` set.
pub open spec fn spawn_env_base(env: Map<Seq<char>, Seq<char>>, port: u16, data_dir: Seq<char>) -> Map<Seq<char>, Seq<char>> {
    env.insert("PORT"@, decimal_spec(port as nat)).insert("NODE_ENV"@, "production"@).insert(
        "DATA_DIR"@,
        data_dir,
    )
}

/// The server process's environment; see `server_env_for_spawn`.
pub open spec fn spawn_env_spec(
    env: Map<Seq<char>, Seq<char>>,
    port: u16,
    data_dir: Seq<char>,
    heap_mb: Option<u64>,
) -> Map<Seq<char>, Seq<char>> {
    let base = spawn_env_base(env, port, data_dir);
    match heap_mb {
        None => base,
        Some(h) => base.insert(
            "NODE_OPTIONS"@,
            node_options_spec(
                if base.contains_key("NODE_OPTIONS"@) {
                    base["NODE_OPTIONS"@]
                } else {
                    Seq::<char>::empty()
                },
                h,
            ),
        ),
    }
}

/// The environment of the server process: the bootstrapped environment with
/// `PORT`, `NODE_ENV=production` and `DATA_DIR` set, and, when a heap size
/// is given (at start-up), `NODE_OPTIONS` as `node_options_spec` makes it
/// from the `NODE_OPTIONS` already there (empty when none).
pub fn server_env_for_spawn(env: EnvMap, port: u16, data_dir: &str, heap_mb: Option<u64>) -> (r: EnvMap)
    requires
        env.wf(),
    ensures
        r.wf(),
        r@ == spawn_env_spec(env@, port, data_dir@, heap_mb),
{
    let ghost base = spawn_env_base(env@, port, data_dir@);
    let mut out = env;
    let port_text = decimal(port as u64);
    assert(port_text@ == decimal_spec(port as nat));
    out.insert("PORT".to_owned(), port_text);
    out.insert("NODE_ENV".to_owned(), "production".to_owned());
    out.insert("DATA_DIR".to_owned(), data_dir.to_owned());
    assert(out@ =~= base);
    match heap_mb {
        None => out,
        Some(h) => {
            proof {
                reveal_strlit("");
            }
            let ghost existing = if base.contains_key("NODE_OPTIONS"@) {
                base["NODE_OPTIONS"@]
            } else {
                Seq::<char>::empty()
            };
            let opts = match out.get("NODE_OPTIONS") {
                Some(v) => {
                    assert(v@ == existing);
                    node_options(v.as_str(), h)
                },
                None => {
                    assert(""@ =~= existing);
                    node_options("", h)
                },
            };
            assert(opts@ == node_options_spec(existing, h));
            out.insert("NODE_OPTIONS".to_owned(), opts);
            assert(out@ =~= spawn_env_spec(env@, port, data_dir@, heap_mb));
            out
        },
    }
}

/// The last character of a decimal numeral is a digit.
proof fn lemma_decimal_ends_in_digit(n: nat)
    ensures
        decimal_spec(n).len() > 0,
        '0' <= decimal_spec(n).last() && decimal_spec(n).last() <= '9',
{
    if n >= 10 {
        assert(decimal_spec(n) == decimal_spec(n / 10).push(digit_char((n % 10) as int)));
    }
}

/// Trimming `e + " " + m`, where `m` starts and ends with characters that
/// are not white space, keeps all of `m` at the end.
proof fn lemma_trim_keeps_tail(e: Seq<char>, m: Seq<char>)
    requires
        m.len() > 0,
        !is_white_space(m[0]),
        !is_white_space(m.last()),
    ensures
        ({
            let s = e + seq![' '] + m;
            let t = trim_spec(s);
            &&& t.len() >= m.len()
            &&& t.subrange(t.len() - m.len(), t.len() as int) == m
            &&& e.len() == 0 ==> t == m
        }),
{
    let s = e + seq![' '] + m;
    let p = not_white_space();
    let start: int = e.len() as int + 1;
    assert(s[start] == m[0]);
    lemma_first_idx_exists(s, p);
    let a = first_idx(s, p);
    if a > start {
        assert(!p(s[start]));
    }
    assert(a <= start);
    let t0 = trim_start_spec(s);
    assert(t0 == s.subrange(a, s.len() as int));
    assert(t0.last() == s.last());
    assert(s.last() == m.last());
    assert(is_end_idx(t0, p, t0.len() as int));
    lemma_end_idx_is(t0, p, t0.len() as int);
    assert(trim_spec(s) =~= t0);
    assert(t0.subrange(t0.len() - m.len(), t0.len() as int) =~= m);
    if e.len() == 0 {
        assert(s[0] == ' ');
        assert(is_first_idx(s, p, 1));
        lemma_first_idx_is(s, p, 1);
        assert(t0 =~= m);
    }
}

/// The `NODE_OPTIONS` that the server gets always sets its heap size:
/// `node_options_spec` keeps options that already set it, and otherwise
/// ends with `--max-old-space-size=<heap_mb>`; from no options at all it is
/// exactly `--max-old-space-size=<heap_mb>`.
pub proof fn lemma_node_options_set_heap(existing: Seq<char>, heap_mb: u64)
    ensures
        contains_spec(node_options_spec(existing, heap_mb), "--max-old-space-size"@),
        contains_spec(existing, "--max-old-space-size"@) ==> node_options_spec(existing, heap_mb) == existing,
        !contains_spec(existing, "--max-old-space-size"@) ==> node_options_spec(existing, heap_mb).len()
            >= ("--max-old-space-size="@ + decimal_spec(heap_mb as nat)).len()
            && node_options_spec(existing, heap_mb).subrange(
            node_options_spec(existing, heap_mb).len() - ("--max-old-space-size="@ + decimal_spec(heap_mb as nat)).len(),
            node_options_spec(existing, heap_mb).len() as int,
        ) == "--max-old-space-size="@ + decimal_spec(heap_mb as nat),
        existing.len() == 0 ==> node_options_spec(existing, heap_mb) == "--max-old-space-size="@ + decimal_spec(
            heap_mb as nat,
        ),
{
    reveal_strlit("--max-old-space-size");
    reveal_strlit("--max-old-space-size=");
    reveal_strlit(" --max-old-space-size=");
    let d = decimal_spec(heap_mb as nat);
    let m = "--max-old-space-size="@ + d;
    let needle = "--max-old-space-size"@;
    lemma_decimal_ends_in_digit(heap_mb as nat);
    assert(m.last() == d.last());
    assert(m[0] == '-');
    assert(existing + " --max-old-space-size="@ + d =~= existing + seq![' '] + m);
    if existing.len() == 0 {
        assert(!contains_spec(existing, needle));
    }
    if !contains_spec(existing, needle) {
        lemma_trim_keeps_tail(existing, m);
        let t = node_options_spec(existing, heap_mb);
        let i = t.len() - m.len();
        assert(t.subrange(i, i + needle.len()) =~= needle) by {
            assert forall|k: int| 0 <= k < needle.len() implies #[trigger] t.subrange(i, i + needle.len())[k]
                == needle[k] by {
                assert(t.subrange(i, i + needle.len())[k] == t.subrange(i, t.len() as int)[k]);
                assert(m[k] == needle[k]);
            }
        }
    }
}

/// `PORT`, `NODE_ENV`, `DATA_DIR` and `NODE_OPTIONS` are four different
/// variables.
proof fn lemma_spawn_keys_distinct()
    ensures
        "PORT"@ != "NODE_ENV"@,
        "PORT"@ != "DATA_DIR"@,
        "NODE_ENV"@ != "DATA_DIR"@,
        "NODE_OPTIONS"@ != "PORT"@,
        "NODE_OPTIONS"@ != "NODE_ENV"@,
        "NODE_OPTIONS"@ != "DATA_DIR"@,
{
    reveal_strlit("PORT");
    reveal_strlit("NODE_ENV");
    reveal_strlit("DATA_DIR");
    reveal_strlit("NODE_OPTIONS");
    assert("NODE_ENV"@[0] != "DATA_DIR"@[0]);
    assert("NODE_OPTIONS"@.len() == 12);
    assert("PORT"@.len() == 4);
    assert("NODE_ENV"@.len() == 8);
    assert("DATA_DIR"@.len() == 8);
}

/// The server's environment: `PORT` is the port in decimal, `NODE_ENV` is
/// `production`, `DATA_DIR` is the data directory, every other variable is
/// kept; with a heap size, `NODE_OPTIONS` is present and sets
/// `--max-old-space-size` (exactly `--max-old-space-size=<heap>` when the
/// environment had no `NODE_OPTIONS`, and unchanged when it already set the
/// heap size); without one, `NODE_OPTIONS` is left as it was.
pub proof fn lemma_spawn_env(env: Map<Seq<char>, Seq<char>>, port: u16, data_dir: Seq<char>, heap_mb: Option<u64>)
    ensures
        spawn_env_spec(env, port, data_dir, heap_mb)["PORT"@] == decimal_spec(port as nat),
        spawn_env_spec(env, port, data_dir, heap_mb)["NODE_ENV"@] == "production"@,
        spawn_env_spec(env, port, data_dir, heap_mb)["DATA_DIR"@] == data_dir,
        spawn_env_spec(env, port, data_dir, heap_mb).contains_key("PORT"@),
        spawn_env_spec(env, port, data_dir, heap_mb).contains_key("NODE_ENV"@),
        spawn_env_spec(env, port, data_dir, heap_mb).contains_key("DATA_DIR"@),
        forall|k: Seq<char>|
            env.contains_key(k) && k != "PORT"@ && k != "NODE_ENV"@ && k != "DATA_DIR"@ && k != "NODE_OPTIONS"@
                ==> #[trigger] spawn_env_spec(env, port, data_dir, heap_mb).contains_key(k)
                && spawn_env_spec(env, port, data_dir, heap_mb)[k] == env[k],
        heap_mb is Some ==> spawn_env_spec(env, port, data_dir, heap_mb).contains_key("NODE_OPTIONS"@)
            && contains_spec(spawn_env_spec(env, port, data_dir, heap_mb)["NODE_OPTIONS"@], "--max-old-space-size"@),
        heap_mb is Some && !env.contains_key("NODE_OPTIONS"@) ==> spawn_env_spec(
            env,
            port,
            data_dir,
            heap_mb,
        )["NODE_OPTIONS"@] == "--max-old-space-size="@ + decimal_spec(heap_mb->0 as nat),
        heap_mb is Some && env.contains_key("NODE_OPTIONS"@) && contains_spec(
            env["NODE_OPTIONS"@],
            "--max-old-space-size"@,
        ) ==> spawn_env_spec(env, port, data_dir, heap_mb)["NODE_OPTIONS"@] == env["NODE_OPTIONS"@],
        heap_mb is None ==> (spawn_env_spec(env, port, data_dir, heap_mb).contains_key("NODE_OPTIONS"@)
            == env.contains_key("NODE_OPTIONS"@) && spawn_env_spec(env, port, data_dir, heap_mb)["NODE_OPTIONS"@]
            == env["NODE_OPTIONS"@]),
{
    lemma_spawn_keys_distinct();
    let base = spawn_env_base(env, port, data_dir);
    assert(base.contains_key("NODE_OPTIONS"@) == env.contains_key("NODE_OPTIONS"@));
    assert(base["NODE_OPTIONS"@] == env["NODE_OPTIONS"@]);
    if let Some(h) = heap_mb {
        let existing = if base.contains_key("NODE_OPTIONS"@) {
            base["NODE_OPTIONS"@]
        } else {
            Seq::<char>::empty()
        };
        lemma_node_options_set_heap(existing, h);
    }
}

/// How the shell gets a server at start-up.
pub enum StartupMode {
    /// Development: the dev server is already running.
    Dev,
    /// Remote-server mode: connect to the remote URL.
    Remote,
    /// Bootstrap the environment and spawn the embedded server.
    SpawnLocal,
}

/// Development mode first, then remote-server mode, else a local server.
pub fn startup_mode(is_dev: bool, has_remote_url: bool) -> (r: StartupMode)
    ensures
        is_dev ==> r is Dev,
        !is_dev && has_remote_url ==> r is Remote,
        !is_dev && !has_remote_url ==> r is SpawnLocal,
{
    if is_dev {
        StartupMode::Dev
    } else if has_remote_url {
        StartupMode::Remote
    } else {
        StartupMode::SpawnLocal
    }
}

// ---------------------------------------------------------------------------
// Action plans
// ---------------------------------------------------------------------------

/// A status reported in the `server-status` event.
pub enum StatusKind {
    Starting,
    Running,
    Restarting,
    Stopped,
    Error,
}

/// The status as the renderer reads it.
pub open spec fn status_text(s: StatusKind) -> Seq<char> {
    match s {
        StatusKind::Starting => "starting"@,
        StatusKind::Running => "running"@,
        StatusKind::Restarting => "restarting"@,
        StatusKind::Stopped => "stopped"@,
        StatusKind::Error => "error"@,
    }
}

impl StatusKind {
    /// The status as the renderer reads it.
    pub fn as_str(&self) -> (r: &'static str)
        ensures
            r@ == status_text(*self),
    {
        match self {
            StatusKind::Starting => "starting",
            StatusKind::Running => "running",
            StatusKind::Restarting => "restarting",
            StatusKind::Stopped => "stopped",
            StatusKind::Error => "error",
        }
    }
}

/// One step of the server's life cycle, performed in order by the
/// application. A step that fails (bootstrap, spawn) ends the plan with its
/// error.
pub enum ServerAction {
    /// Report `status` with `port` and `remote_url` (`server-status`).
    EmitStatus { status: StatusKind, port: u16, remote_url: Option<String> },
    /// Kill the running server, if any, and wait up to 5 s for it to exit.
    StopServer,
    /// Bootstrap the server environment for the current port and data
    /// directory, with the heap size in `NODE_OPTIONS` when `with_heap`.
    Bootstrap { with_heap: bool },
    /// Spawn the server with the bootstrapped environment and keep it.
    Spawn,
    /// Wait up to `timeout_secs` for the health check to answer.
    WaitReady { timeout_secs: u64 },
    /// Send the main window to the server.
    Navigate,
    /// When the last wait timed out: in the background, wait up to
    /// `timeout_secs` more and send the main window to the server once it
    /// answers.
    NavigateWhenReady { timeout_secs: u64 },
    /// Make `port` the server's port.
    SetPort(u16),
    /// Store `url` as the remote server, in the preferences and the state.
    StoreRemoteUrl(Option<String>),
    /// Report the new port (`port-changed`).
    EmitPortChanged(u16),
}

/// `a` reports `status` with `port` and `remote_url`.
pub open spec fn emits(a: ServerAction, status: StatusKind, port: u16, remote_url: Option<Seq<char>>) -> bool {
    match a {
        ServerAction::EmitStatus { status: s, port: p, remote_url: u } => s == status && p == port
            && opt_string_view(u) == remote_url,
        _ => false,
    }
}

/// `a` stores `url` as the remote server.
pub open spec fn stores(a: ServerAction, url: Option<Seq<char>>) -> bool {
    match a {
        ServerAction::StoreRemoteUrl(u) => opt_string_view(u) == url,
        _ => false,
    }
}

/// The start-up plan: in development or remote mode, report `running` and
/// navigate; else bootstrap (with the heap size), report `starting`, spawn,
/// wait up to 180 s, report `running`, navigate, and when the wait timed out
/// keep waiting up to 300 s in the background to navigate again.
pub open spec fn is_startup_actions(s: Seq<ServerAction>, is_dev: bool, port: u16, remote_url: Option<Seq<char>>) -> bool {
    if is_dev || remote_url is Some {
        &&& s.len() == 2
        &&& emits(s[0], StatusKind::Running, port, remote_url)
        &&& s[1] == ServerAction::Navigate
    } else {
        &&& s.len() == 7
        &&& s[0] == ServerAction::Bootstrap { with_heap: true }
        &&& emits(s[1], StatusKind::Starting, port, None)
        &&& s[2] == ServerAction::Spawn
        &&& s[3] == ServerAction::WaitReady { timeout_secs: 180 }
        &&& emits(s[4], StatusKind::Running, port, None)
        &&& s[5] == ServerAction::Navigate
        &&& s[6] == ServerAction::NavigateWhenReady { timeout_secs: 300 }
    }
}

/// The restart plan: report `restarting`; in development or remote mode
/// then report `running`; else stop the server, bootstrap (without the heap
/// size), spawn, wait up to 180 s, report `running` and navigate.
pub open spec fn is_restart_actions(s: Seq<ServerAction>, is_dev: bool, port: u16, remote_url: Option<Seq<char>>) -> bool {
    &&& s.len() >= 1
    &&& emits(s[0], StatusKind::Restarting, port, remote_url)
    &&& if is_dev || remote_url is Some {
        &&& s.len() == 2
        &&& emits(s[1], StatusKind::Running, port, remote_url)
    } else {
        &&& s.len() == 7
        &&& s[1] == ServerAction::StopServer
        &&& s[2] == ServerAction::Bootstrap { with_heap: false }
        &&& s[3] == ServerAction::Spawn
        &&& s[4] == ServerAction::WaitReady { timeout_secs: 180 }
        &&& emits(s[5], StatusKind::Running, port, None)
        &&& s[6] == ServerAction::Navigate
    }
}

/// The port-change plan: nothing when the port is the same; else set the
/// port, report `restarting` on it, stop the server, restart as
/// `is_restart_actions` says, and report the new port.
pub open spec fn is_port_change_actions(
    s: Seq<ServerAction>,
    old_port: u16,
    new_port: u16,
    is_dev: bool,
    remote_url: Option<Seq<char>>,
) -> bool {
    if new_port == old_port {
        s.len() == 0
    } else {
        &&& s.len() >= 4
        &&& s[0] == ServerAction::SetPort(new_port)
        &&& emits(s[1], StatusKind::Restarting, new_port, None)
        &&& s[2] == ServerAction::StopServer
        &&& is_restart_actions(s.subrange(3, s.len() - 1), is_dev, new_port, remote_url)
        &&& s[s.len() - 1] == ServerAction::EmitPortChanged(new_port)
    }
}

/// The plan for switching the remote server to `url` (`None`: back to the
/// embedded server): report `restarting` with the new URL, stop the server,
/// store the URL; without one, bootstrap, spawn and wait up to 180 s; then
/// navigate and report `running` with the new URL.
pub open spec fn is_remote_switch_actions(s: Seq<ServerAction>, port: u16, url: Option<Seq<char>>) -> bool {
    &&& s.len() >= 5
    &&& emits(s[0], StatusKind::Restarting, port, url)
    &&& s[1] == ServerAction::StopServer
    &&& stores(s[2], url)
    &&& if url is None {
        &&& s.len() == 8
        &&& s[3] == ServerAction::Bootstrap { with_heap: false }
        &&& s[4] == ServerAction::Spawn
        &&& s[5] == ServerAction::WaitReady { timeout_secs: 180 }
    } else {
        s.len() == 5
    }
    &&& s[s.len() - 2] == ServerAction::Navigate
    &&& emits(s[s.len() - 1], StatusKind::Running, port, url)
}

/// `a` reports the server running.
pub open spec fn reports_running(a: ServerAction) -> bool {
    match a {
        ServerAction::EmitStatus { status, .. } => status == StatusKind::Running,
        _ => false,
    }
}

/// `s` spawns a server at `j`: after a stop and a bootstrap of its
/// environment, with no stop after it, waiting for it later, and reporting
/// it running or navigating to it only after it.
pub open spec fn spawns_at(s: Seq<ServerAction>, j: int) -> bool {
    &&& 0 <= j < s.len()
    &&& s[j] == ServerAction::Spawn
    &&& exists|i: int| 0 <= i < j && #[trigger] s[i] == ServerAction::StopServer
    &&& exists|b: int| 0 <= b < j && #[trigger] s[b] is Bootstrap
    &&& forall|i: int| j < i < s.len() ==> #[trigger] s[i] != ServerAction::StopServer
    &&& exists|k: int| j < k < s.len() && #[trigger] s[k] == ServerAction::WaitReady { timeout_secs: 180 }
    &&& forall|k: int| 0 <= k < j ==> !reports_running(#[trigger] s[k]) && s[k] != ServerAction::Navigate
}

/// `s` stops the old server and spawns a new one, which it waits for before
/// reporting it running.
pub open spec fn respawns(s: Seq<ServerAction>) -> bool {
    exists|j: int| #[trigger] spawns_at(s, j)
}

/// `s` never spawns a server.
pub open spec fn never_spawns(s: Seq<ServerAction>) -> bool {
    forall|i: int| 0 <= i < s.len() ==> #[trigger] s[i] != ServerAction::Spawn
}

/// `s` never stops the server.
pub open spec fn never_stops(s: Seq<ServerAction>) -> bool {
    forall|i: int| 0 <= i < s.len() ==> #[trigger] s[i] != ServerAction::StopServer
}

/// Start-up spawns the embedded server, before waiting for it, reporting it
/// running or navigating to it, exactly when neither development nor a
/// remote server is in use; otherwise nothing is spawned.
pub proof fn lemma_startup_spawns(s: Seq<ServerAction>, is_dev: bool, port: u16, remote_url: Option<Seq<char>>)
    requires
        is_startup_actions(s, is_dev, port, remote_url),
    ensures
        !is_dev && remote_url is None ==> s[0] == (ServerAction::Bootstrap { with_heap: true }) && s[2]
            == ServerAction::Spawn && (exists|k: int|
            2 < k < s.len() && #[trigger] s[k] == (ServerAction::WaitReady { timeout_secs: 180 })) && (forall|k: int|
            0 <= k < 2 ==> !reports_running(#[trigger] s[k]) && s[k] != ServerAction::Navigate),
        is_dev || remote_url is Some ==> never_spawns(s) && never_stops(s),
{
    if !is_dev && remote_url is None {
        assert(s[3] == ServerAction::WaitReady { timeout_secs: 180 });
        assert(!reports_running(s[0]) && !reports_running(s[1]));
    }
}

/// A restart of the embedded server (neither development nor a remote
/// server) stops the old server and spawns a new one, which it waits for
/// before reporting it running and navigating to it; in development or
/// remote mode a restart neither stops nor spawns anything.
pub proof fn lemma_restart_respawns(s: Seq<ServerAction>, is_dev: bool, port: u16, remote_url: Option<Seq<char>>)
    requires
        is_restart_actions(s, is_dev, port, remote_url),
    ensures
        !is_dev && remote_url is None ==> respawns(s),
        is_dev || remote_url is Some ==> never_spawns(s) && never_stops(s),
{
    if !is_dev && remote_url is None {
        assert(s[1] == ServerAction::StopServer);
        assert(s[4] == ServerAction::WaitReady { timeout_secs: 180 });
        assert forall|i: int| 3 < i < s.len() implies #[trigger] s[i] != ServerAction::StopServer by {
            if i == 5 {
                assert(reports_running(s[5]));
            }
        }
        assert forall|k: int| 0 <= k < 3 implies !reports_running(#[trigger] s[k]) && s[k]
            != ServerAction::Navigate by {
            if k == 0 {
                assert(emits(s[0], StatusKind::Restarting, port, remote_url));
            }
        }
        assert(spawns_at(s, 3));
    } else {
        assert forall|i: int| 0 <= i < s.len() implies #[trigger] s[i] != ServerAction::Spawn && s[i]
            != ServerAction::StopServer by {
            if i == 0 {
                assert(emits(s[0], StatusKind::Restarting, port, remote_url));
            } else {
                assert(emits(s[1], StatusKind::Running, port, remote_url));
            }
        }
    }
}

/// Moving the embedded server to another port sets the port, stops the old
/// server, spawns a new one (waiting for it before reporting it running),
/// and ends by reporting the new port; a move to the same port does
/// nothing.
pub proof fn lemma_port_change_respawns(
    s: Seq<ServerAction>,
    old_port: u16,
    new_port: u16,
    is_dev: bool,
    remote_url: Option<Seq<char>>,
)
    requires
        is_port_change_actions(s, old_port, new_port, is_dev, remote_url),
    ensures
        new_port == old_port ==> s.len() == 0,
        new_port != old_port ==> s[0] == ServerAction::SetPort(new_port) && s[s.len() - 1]
            == ServerAction::EmitPortChanged(new_port),
        new_port != old_port && !is_dev && remote_url is None ==> respawns(s),
{
    if new_port != old_port && !is_dev && remote_url is None {
        let sub = s.subrange(3, s.len() - 1);
        assert(sub.len() == 7);
        assert(s.len() == 11);
        assert forall|i: int| 3 <= i < 10 implies s[i] == #[trigger] sub[i - 3] by {}
        assert(s[6] == ServerAction::Spawn) by {
            assert(s[6] == sub[3]);
        }
        assert(s[2] == ServerAction::StopServer);
        assert(s[7] == ServerAction::WaitReady { timeout_secs: 180 }) by {
            assert(s[7] == sub[4]);
        }
        assert forall|i: int| 6 < i < s.len() implies #[trigger] s[i] != ServerAction::StopServer by {
            if i == 8 {
                assert(s[8] == sub[5]);
                assert(reports_running(s[8]));
            } else if i == 7 {
                assert(s[7] == sub[4]);
            } else if i == 9 {
                assert(s[9] == sub[6]);
            }
        }
        assert forall|k: int| 0 <= k < 6 implies !reports_running(#[trigger] s[k]) && s[k]
            != ServerAction::Navigate by {
            if k == 1 {
                assert(emits(s[1], StatusKind::Restarting, new_port, None));
            } else if k == 3 {
                assert(s[3] == sub[0]);
                assert(emits(sub[0], StatusKind::Restarting, new_port, remote_url));
            } else if k == 4 {
                assert(s[4] == sub[1]);
            } else if k == 5 {
                assert(s[5] == sub[2]);
            }
        }
        assert(spawns_at(s, 6));
    }
}

/// Switching back to the embedded server (`url` is `None`) stops the old
/// server, stores the choice, and then spawns a local server, waiting for it
/// before navigating and reporting it running; switching to a remote server
/// spawns nothing. Either way the URL is stored and the last
/// report is `running` with that URL.
pub proof fn lemma_remote_switch_spawns(s: Seq<ServerAction>, port: u16, url: Option<Seq<char>>)
    requires
        is_remote_switch_actions(s, port, url),
    ensures
        url is None ==> respawns(s) && forall|j: int|
            0 <= j < s.len() && #[trigger] s[j] == ServerAction::Spawn ==> j > 2,
        url is Some ==> never_spawns(s),
        stores(s[2], url),
        emits(s[s.len() - 1], StatusKind::Running, port, url),
{
    if url is None {
        assert(s[1] == ServerAction::StopServer);
        assert(s[5] == ServerAction::WaitReady { timeout_secs: 180 });
        assert forall|i: int| 4 < i < s.len() implies #[trigger] s[i] != ServerAction::StopServer by {
            if i == 7 {
                assert(reports_running(s[7]));
            }
        }
        assert forall|k: int| 0 <= k < 4 implies !reports_running(#[trigger] s[k]) && s[k]
            != ServerAction::Navigate by {
            if k == 0 {
                assert(emits(s[0], StatusKind::Restarting, port, url));
            } else if k == 2 {
                assert(stores(s[2], url));
            }
        }
        assert(spawns_at(s, 4));
        assert forall|j: int| 0 <= j < s.len() && #[trigger] s[j] == ServerAction::Spawn implies j > 2 by {
            if j == 0 {
                assert(emits(s[0], StatusKind::Restarting, port, url));
            } else if j == 2 {
                assert(stores(s[2], url));
            }
        }
    } else {
        assert forall|i: int| 0 <= i < s.len() implies #[trigger] s[i] != ServerAction::Spawn by {
            if i == 0 {
                assert(emits(s[0], StatusKind::Restarting, port, url));
            } else if i == 2 {
                assert(stores(s[2], url));
            } else if i == 4 {
                assert(emits(s[4], StatusKind::Running, port, url));
            }
        }
    }
}

/// Where the main window goes: the remote server whenever one is in use, in
/// every mode; otherwise, in development, the `OMNIROUTE_DEV_URL` value (or
/// `http://localhost:3000`), and in production the embedded server on its
/// port, which is also what the tray's "Open Dashboard" opens.
pub proof fn lemma_navigation_target(
    remote_url: Option<Seq<char>>,
    is_dev: bool,
    dev_url_env: Option<Seq<char>>,
    port: u16,
)
    ensures
        remote_url matches Some(u) ==> navigation_url_spec(remote_url, is_dev, dev_url_env, port) == u,
        remote_url is None && !is_dev ==> navigation_url_spec(remote_url, is_dev, dev_url_env, port)
            == "http://localhost:"@ + decimal_spec(port as nat),
        remote_url is None && is_dev && dev_url_env is Some ==> navigation_url_spec(
            remote_url,
            is_dev,
            dev_url_env,
            port,
        ) == dev_url_env->0,
        remote_url is None && is_dev && dev_url_env is None ==> navigation_url_spec(
            remote_url,
            is_dev,
            dev_url_env,
            port,
        ) == "http://localhost:3000"@,
        !is_dev ==> navigation_url_spec(remote_url, is_dev, dev_url_env, port) == match remote_url {
            Some(u) => u,
            None => local_url_spec(port),
        },
{
}

fn emit(status: StatusKind, port: u16, remote_url: Option<&str>) -> (r: ServerAction)
    ensures
        emits(r, status, port, opt_str_view(remote_url)),
{
    ServerAction::EmitStatus {
        status,
        port,
        remote_url: match remote_url {
            Some(u) => Some(u.to_owned()),
            None => None,
        },
    }
}

/// What start-up does, for the mode and port and the remote server in use.
pub fn startup_actions(is_dev: bool, port: u16, remote_url: Option<&str>) -> (r: Vec<ServerAction>)
    ensures
        is_startup_actions(r@, is_dev, port, opt_str_view(remote_url)),
{
    let mut r: Vec<ServerAction> = Vec::new();
    match startup_mode(is_dev, remote_url.is_some()) {
        StartupMode::SpawnLocal => {
            r.push(ServerAction::Bootstrap { with_heap: true });
            r.push(emit(StatusKind::Starting, port, None));
            r.push(ServerAction::Spawn);
            r.push(ServerAction::WaitReady { timeout_secs: 180 });
            r.push(emit(StatusKind::Running, port, None));
            r.push(ServerAction::Navigate);
            r.push(ServerAction::NavigateWhenReady { timeout_secs: 300 });
        },
        _ => {
            r.push(emit(StatusKind::Running, port, remote_url));
            r.push(ServerAction::Navigate);
        },
    }
    r
}

/// What restarting the server does.
pub fn restart_actions(is_dev: bool, port: u16, remote_url: Option<&str>) -> (r: Vec<ServerAction>)
    ensures
        is_restart_actions(r@, is_dev, port, opt_str_view(remote_url)),
{
    let mut r: Vec<ServerAction> = Vec::new();
    r.push(emit(StatusKind::Restarting, port, remote_url));
    match startup_mode(is_dev, remote_url.is_some()) {
        StartupMode::SpawnLocal => {
            r.push(ServerAction::StopServer);
            r.push(ServerAction::Bootstrap { with_heap: false });
            r.push(ServerAction::Spawn);
            r.push(ServerAction::WaitReady { timeout_secs: 180 });
            r.push(emit(StatusKind::Running, port, None));
            r.push(ServerAction::Navigate);
        },
        _ => {
            r.push(emit(StatusKind::Running, port, remote_url));
        },
    }
    r
}

/// What moving the server from `old_port` to `new_port` does.
pub fn port_change_actions(old_port: u16, new_port: u16, is_dev: bool, remote_url: Option<&str>) -> (r: Vec<
    ServerAction,
>)
    ensures
        is_port_change_actions(r@, old_port, new_port, is_dev, opt_str_view(remote_url)),
{
    let mut r: Vec<ServerAction> = Vec::new();
    if new_port == old_port {
        return r;
    }
    r.push(ServerAction::SetPort(new_port));
    r.push(emit(StatusKind::Restarting, new_port, None));
    r.push(ServerAction::StopServer);
    let mut rest = restart_actions(is_dev, new_port, remote_url);
    let ghost rs = rest@;
    r.append(&mut rest);
    r.push(ServerAction::EmitPortChanged(new_port));
    assert(r@.subrange(3, r@.len() - 1) =~= rs);
    r
}

/// What switching the remote server to `url` does (`url` as
/// `plan_remote_url_change` gives it).
pub fn remote_switch_actions(port: u16, url: Option<&str>) -> (r: Vec<ServerAction>)
    ensures
        is_remote_switch_actions(r@, port, opt_str_view(url)),
{
    let mut r: Vec<ServerAction> = Vec::new();
    r.push(emit(StatusKind::Restarting, port, url));
    r.push(ServerAction::StopServer);
    r.push(ServerAction::StoreRemoteUrl(
        match url {
            Some(u) => Some(u.to_owned()),
            None => None,
        },
    ));
    if url.is_none() {
        r.push(ServerAction::Bootstrap { with_heap: false });
        r.push(ServerAction::Spawn);
        r.push(ServerAction::WaitReady { timeout_secs: 180 });
    }
    r.push(ServerAction::Navigate);
    r.push(emit(StatusKind::Running, port, url));
    r
}

/// Whether a server output line announces readiness (it mentions `Ready`,
/// `started` or `listening`).
pub fn is_ready_line(line: &str) -> (r: bool)
    ensures
        r == (contains_spec(line@, "Ready"@) || contains_spec(line@, "started"@) || contains_spec(
            line@,
            "listening"@,
        )),
{
    contains_str(line, "Ready") || contains_str(line, "started") || contains_str(line, "listening")
}

/// Whether a health-check answer with this status code means the server is
/// up: a success, or any other answer below 500.
pub fn is_ready_status(code: u16) -> (r: bool)
    ensures
        r == ((200 <= code && code <= 299) || code < 500),
{
    (200 <= code && code <= 299) || code < 500
}

/// The URL the main window shows: the remote server's, else in development
/// the `OMNIROUTE_DEV_URL` value (or `http://localhost:3000`), else the
/// embedded server's.
pub open spec fn navigation_url_spec(
    remote_url: Option<Seq<char>>,
    is_dev: bool,
    dev_url_env: Option<Seq<char>>,
    port: u16,
) -> Seq<char> {
    match remote_url {
        Some(u) => u,
        None => if is_dev {
            match dev_url_env {
                Some(d) => d,
                None => "http://localhost:3000"@,
            }
        } else {
            local_url_spec(port)
        },
    }
}

/// Computes the URL the main window shows.
pub fn navigation_url(remote_url: Option<&str>, is_dev: bool, dev_url_env: Option<&str>, port: u16) -> (r: String)
    ensures
        r@ == navigation_url_spec(opt_str_view(remote_url), is_dev, opt_str_view(dev_url_env), port),
{
    match remote_url {
        Some(u) => u.to_owned(),
        None => if is_dev {
            match dev_url_env {
                Some(d) => d.to_owned(),
                None => "http://localhost:3000".to_owned(),
            }
        } else {
            local_server_url(port)
        },
    }
}

// ---------------------------------------------------------------------------
// The navigation script
// ---------------------------------------------------------------------------

/// One character inside a single-quoted JavaScript string literal: a
/// backslash and a single quote get a backslash in front.
pub open spec fn js_escape_char(c: char) -> Seq<char> {
    if c == '\\' {
        seq!['\\', '\\']
    } else if c == '\'' {
        seq!['\\', '\'']
    } else {
        seq![c]
    }
}

/// `s` escaped for a single-quoted JavaScript string literal (what
/// `replace('\\', "\\\\").replace('\'', "\\'")` gives).
pub open spec fn js_escape_spec(s: Seq<char>) -> Seq<char>
    decreases s.len(),
{
    if s.len() == 0 {
        seq![]
    } else {
        js_escape_spec(s.drop_last()) + js_escape_char(s.last())
    }
}

/// What a single-quoted JavaScript string literal with body `s` denotes,
/// for the escapes `\\` and `\'` (a backslash keeps the next character).
pub open spec fn js_unescape_spec(s: Seq<char>) -> Seq<char>
    decreases s.len(),
{
    if s.len() >= 2 && s[0] == '\\' {
        seq![s[1]] + js_unescape_spec(s.subrange(2, s.len() as int))
    } else if s.len() >= 1 {
        seq![s[0]] + js_unescape_spec(s.drop_first())
    } else {
        seq![]
    }
}

proof fn lemma_js_escape_cons(c: char, t: Seq<char>)
    ensures
        js_escape_spec(seq![c] + t) == js_escape_char(c) + js_escape_spec(t),
    decreases t.len(),
{
    if t.len() == 0 {
        assert((seq![c] + t).drop_last() =~= Seq::<char>::empty());
        assert(js_escape_spec(Seq::<char>::empty()) == Seq::<char>::empty());
        assert(t =~= Seq::<char>::empty());
        assert(js_escape_spec(seq![c] + t) =~= js_escape_char(c) + js_escape_spec(t));
    } else {
        lemma_js_escape_cons(c, t.drop_last());
        assert((seq![c] + t).drop_last() =~= seq![c] + t.drop_last());
        assert(js_escape_spec(seq![c] + t) =~= js_escape_char(c) + js_escape_spec(t));
    }
}

/// The escaped URL inside the navigation script's string literal denotes the
/// URL itself: no quote or backslash in it can end the literal early.
pub proof fn lemma_js_escape_roundtrip(s: Seq<char>)
    ensures
        js_unescape_spec(js_escape_spec(s)) == s,
    decreases s.len(),
{
    if s.len() > 0 {
        let c = s[0];
        let t = s.drop_first();
        assert(s =~= seq![c] + t);
        lemma_js_escape_cons(c, t);
        lemma_js_escape_roundtrip(t);
        let e = js_escape_spec(s);
        if c == '\\' || c == '\'' {
            assert(e.subrange(2, e.len() as int) =~= js_escape_spec(t));
        } else {
            assert(e.drop_first() =~= js_escape_spec(t));
        }
        assert(js_unescape_spec(e) =~= s);
    }
}

/// Escapes `s` for a single-quoted JavaScript string literal.
pub fn js_escape(s: &str) -> (r: String)
    ensures
        r@ == js_escape_spec(s@),
{
    let n = s.unicode_len();
    let mut out = String::new();
    let mut i: usize = 0;
    proof {
        reveal_strlit("\\\\");
        reveal_strlit("\\'");
    }
    assert(s@.take(0) =~= Seq::<char>::empty());
    while i < n
        invariant
            n == s@.len(),
            i <= n,
            out@ == js_escape_spec(s@.take(i as int)),
            "\\\\"@ == seq!['\\', '\\'],
            "\\'"@ == seq!['\\', '\''],
        decreases n - i,
    {
        let c = s.get_char(i);
        if c == '\\' {
            out.append("\\\\");
        } else if c == '\'' {
            out.append("\\'");
        } else {
            out.append(s.substring_char(i, i + 1));
        }
        assert(s@.take(i + 1).drop_last() =~= s@.take(i as int));
        assert(out@ =~= js_escape_spec(s@.take(i + 1)));
        i = i + 1;
    }
    assert(s@.take(n as int) =~= s@);
    out
}

/// `window.location.replace('<escaped url>');`
pub open spec fn navigation_script_spec(url: Seq<char>) -> Seq<char> {
    "window.location.replace('"@ + js_escape_spec(url) + "');"@
}

/// The script that sends the main window to `url`.
pub fn navigation_script(url: &str) -> (r: String)
    ensures
        r@ == navigation_script_spec(url@),
{
    let mut s = "window.location.replace('".to_owned();
    let e = js_escape(url);
    s.append(e.as_str());
    s.append("');");
    s
}

} // verus!
