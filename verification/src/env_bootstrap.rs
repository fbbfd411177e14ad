//! Zero-config secrets bootstrap: merging the persisted `server.env`, the
//! preferred `.env` file and the process environment, generating the secrets
//! that none of them sets, and deciding what to persist.
use vstd::prelude::*;
use crate::env_map::EnvMap;
use crate::random_hex::{is_hex_secret, random_hex, hex_lower, lemma_hex_lower_shape, is_lower_hex};
use crate::env_file::{env_file_safe, env_file_safe_entry, is_rendering_of, parse_env_spec, no_char, lemma_env_file_roundtrip, lemma_parse_is_safe};
use crate::text::{is_trimmed, is_white_space, nonblank, nonblank_spec, opt_str_view};
use crate::paths::{is_path_from, is_path_under, join, path_under, PathBase, PlannedPath};

verus! {

broadcast use vstd::map::group_map_axioms;

/// `JWT_SECRET`.
pub open spec fn jwt_key() -> Seq<char> {
    "JWT_SECRET"@
}

/// `STORAGE_ENCRYPTION_KEY`.
pub open spec fn storage_key() -> Seq<char> {
    "STORAGE_ENCRYPTION_KEY"@
}

/// `STORAGE_ENCRYPTION_KEY_VERSION`.
pub open spec fn storage_version_key() -> Seq<char> {
    "STORAGE_ENCRYPTION_KEY_VERSION"@
}

/// `API_KEY_SECRET`.
pub open spec fn api_key() -> Seq<char> {
    "API_KEY_SECRET"@
}

/// `OMNIROUTE_BOOTSTRAPPED`.
pub open spec fn bootstrapped_key() -> Seq<char> {
    "OMNIROUTE_BOOTSTRAPPED"@
}

/// `v1`, the storage key's version.
pub open spec fn version_value() -> Seq<char> {
    "v1"@
}

/// `true`.
pub open spec fn true_value() -> Seq<char> {
    "true"@
}

/// The three secret names and the two markers are distinct.
pub proof fn lemma_keys_distinct()
    ensures
        jwt_key() != storage_key(),
        jwt_key() != storage_version_key(),
        jwt_key() != api_key(),
        jwt_key() != bootstrapped_key(),
        storage_key() != storage_version_key(),
        storage_key() != api_key(),
        storage_key() != bootstrapped_key(),
        storage_version_key() != api_key(),
        storage_version_key() != bootstrapped_key(),
        api_key() != bootstrapped_key(),
{
    reveal_strlit("JWT_SECRET");
    reveal_strlit("STORAGE_ENCRYPTION_KEY");
    reveal_strlit("STORAGE_ENCRYPTION_KEY_VERSION");
    reveal_strlit("API_KEY_SECRET");
    reveal_strlit("OMNIROUTE_BOOTSTRAPPED");
    assert(jwt_key().len() != storage_key().len());
    assert(jwt_key()[0] != storage_version_key()[0]);
    assert(jwt_key()[0] != api_key()[0]);
    assert(jwt_key()[0] != bootstrapped_key()[0]);
    assert(storage_key().len() != storage_version_key().len());
    assert(storage_key()[0] != api_key()[0]);
    assert(storage_key()[0] != bootstrapped_key()[0]);
    assert(storage_version_key()[0] != api_key()[0]);
    assert(storage_version_key()[0] != bootstrapped_key()[0]);
    assert(api_key()[0] != bootstrapped_key()[0]);
}

/// `v` lists the candidates for the preferred `.env` file for the given
/// `DATA_DIR` variable.
pub open spec fn are_preferred_env_candidates(v: Seq<PlannedPath>, data_dir_env: Option<Seq<char>>) -> bool {
    match nonblank_spec(data_dir_env) {
        Some(d) => {
            &&& v.len() == 3
            &&& is_path_from(v[0], d, seq![".env"@])
            &&& is_path_under(v[1], PathBase::DataDir, seq![".env"@])
            &&& is_path_under(v[2], PathBase::CurrentDir, seq![".env"@])
        },
        None => {
            &&& v.len() == 2
            &&& is_path_under(v[0], PathBase::DataDir, seq![".env"@])
            &&& is_path_under(v[1], PathBase::CurrentDir, seq![".env"@])
        },
    }
}

/// The candidates for the preferred `.env` file, in order of preference:
/// `<DATA_DIR>/.env` when the `DATA_DIR` environment variable
/// (`data_dir_env`) is set and not blank, then `<data dir>/.env`, then
/// `<current dir>/.env`. The first that exists is the preferred file.
pub fn preferred_env_candidates(data_dir_env: Option<&str>) -> (r: Vec<PlannedPath>)
    ensures
        are_preferred_env_candidates(r@, opt_str_view(data_dir_env)),
{
    let mut r: Vec<PlannedPath> = Vec::new();
    if let Some(d) = nonblank(data_dir_env) {
        r.push(path_under(PathBase::Given(d.to_owned()), ".env"));
    }
    r.push(path_under(PathBase::DataDir, ".env"));
    r.push(path_under(PathBase::CurrentDir, ".env"));
    r
}

/// The bytes `enc:v1:`, the prefix of every credential encrypted with a
/// storage key.
pub open spec fn encrypted_marker() -> Seq<u8> {
    seq![101u8, 110u8, 99u8, 58u8, 118u8, 49u8, 58u8]
}

/// `bytes` holds `enc:v1:` somewhere.
pub open spec fn holds_encrypted_marker(bytes: Seq<u8>) -> bool {
    exists|i: int| 0 <= i && i + 7 <= bytes.len() && #[trigger] bytes.subrange(i, i + 7) == encrypted_marker()
}

/// Whether the database file's bytes hold an `enc:v1:`-prefixed credential
/// (a plain scan for the marker, which SQLite stores as raw text).
pub fn contains_encrypted_marker(bytes: &[u8]) -> (r: bool)
    ensures
        r == holds_encrypted_marker(bytes@),
{
    let n = bytes.len();
    if n < 7 {
        return false;
    }
    let mut i: usize = 0;
    while i <= n - 7
        invariant
            n == bytes@.len(),
            n >= 7,
            i <= n - 6,
            forall|j: int| 0 <= j < i ==> #[trigger] bytes@.subrange(j, j + 7) != encrypted_marker(),
        decreases n - i,
    {
        if bytes[i] == 101u8 && bytes[i + 1] == 110u8 && bytes[i + 2] == 99u8 && bytes[i + 3] == 58u8
            && bytes[i + 4] == 118u8 && bytes[i + 5] == 49u8 && bytes[i + 6] == 58u8 {
            assert(bytes@.subrange(i as int, i + 7) =~= encrypted_marker());
            return true;
        }
        assert(bytes@.subrange(i as int, i + 7)[0] == bytes@[i as int]);
        assert(bytes@.subrange(i as int, i + 7) != encrypted_marker()) by {
            let w = bytes@.subrange(i as int, i + 7);
            if w == encrypted_marker() {
                assert(w[0] == bytes@[i as int] && w[1] == bytes@[i + 1] && w[2] == bytes@[i + 2]
                    && w[3] == bytes@[i + 3] && w[4] == bytes@[i + 4] && w[5] == bytes@[i + 5]
                    && w[6] == bytes@[i + 6]);
            }
        }
        i = i + 1;
    }
    false
}

/// The message with which the bootstrap refuses to generate a storage key,
/// naming the database and the `server.env` file.
pub open spec fn refusal_message_spec(db_path: Seq<char>, server_env_path: Seq<char>) -> Seq<char> {
    "Refusing to auto-generate STORAGE_ENCRYPTION_KEY: encrypted credentials already exist in "@
        + db_path + ". Restore the key via an appropriate .env file, "@ + server_env_path
        + ", or process.env."@
}

/// The refusal message for `db_path` and `server_env_path`.
pub fn refusal_message(db_path: &str, server_env_path: &str) -> (r: String)
    ensures
        r@ == refusal_message_spec(db_path@, server_env_path@),
{
    let mut r = "Refusing to auto-generate STORAGE_ENCRYPTION_KEY: encrypted credentials already exist in ".to_owned();
    r.append(db_path);
    r.append(". Restore the key via an appropriate .env file, ");
    r.append(server_env_path);
    r.append(", or process.env.");
    r
}

/// The merged environment: the persisted `server.env`, overridden by the
/// preferred `.env` file, overridden by the process environment.
pub open spec fn merged_env_spec(
    persisted: Map<Seq<char>, Seq<char>>,
    preferred: Map<Seq<char>, Seq<char>>,
    process: Map<Seq<char>, Seq<char>>,
) -> Map<Seq<char>, Seq<char>> {
    persisted.union_prefer_right(preferred).union_prefer_right(process)
}

/// What the bootstrap does with the merged environment `merged`, the
/// persisted entries `persisted`, whether the database already holds
/// encrypted credentials, and fresh secrets `jwt`, `storage`, `api`:
/// `None` when it must refuse (no storage key configured but encrypted
/// credentials exist); otherwise the server environment, the entries to
/// persist, and whether anything was generated.
pub open spec fn bootstrap_spec(
    merged: Map<Seq<char>, Seq<char>>,
    persisted: Map<Seq<char>, Seq<char>>,
    encrypted_credentials: bool,
    jwt: Seq<char>,
    storage: Seq<char>,
    api: Seq<char>,
) -> Option<(Map<Seq<char>, Seq<char>>, Map<Seq<char>, Seq<char>>, bool)> {
    let need_jwt = !merged.contains_key(jwt_key());
    let need_storage = !merged.contains_key(storage_key());
    let need_api = !merged.contains_key(api_key());
    if need_storage && encrypted_credentials {
        None
    } else {
        let e1 = if need_jwt { merged.insert(jwt_key(), jwt) } else { merged };
        let p1 = if need_jwt { persisted.insert(jwt_key(), jwt) } else { persisted };
        let e2 = if need_storage { e1.insert(storage_key(), storage) } else { e1 };
        let p2 = if need_storage {
            p1.insert(storage_key(), storage).insert(storage_version_key(), version_value())
        } else {
            p1
        };
        let e3 = if need_api { e2.insert(api_key(), api) } else { e2 };
        let p3 = if need_api { p2.insert(api_key(), api) } else { p2 };
        let changed = need_jwt || need_storage || need_api;
        let e4 = if changed { e3.insert(bootstrapped_key(), true_value()) } else { e3 };
        Some((e4, p3, changed))
    }
}

/// Why the bootstrap refused to start the server.
pub enum BootstrapError {
    /// No `STORAGE_ENCRYPTION_KEY` is configured, but the database already
    /// holds credentials encrypted with one: a new key would lock them away.
    EncryptedCredentialsWithoutKey,
    /// The operating system's random generator failed while a missing secret
    /// was being generated.
    RandomUnavailable,
}

/// The outcome of a bootstrap.
pub struct ServerEnvBootstrap {
    /// The environment for the server process.
    pub server_env: EnvMap,
    /// The entries to write to `server.env`, when a secret was generated.
    pub persist: Option<EnvMap>,
}

/// The entries to persist of a bootstrap that does not refuse.
pub open spec fn persist_of(
    o: Option<(Map<Seq<char>, Seq<char>>, Map<Seq<char>, Seq<char>>, bool)>,
) -> Map<Seq<char>, Seq<char>> {
    match o {
        Some(t) => t.1,
        None => Map::empty(),
    }
}

/// Whether a bootstrap that does not refuse generated anything.
pub open spec fn changed_of(
    o: Option<(Map<Seq<char>, Seq<char>>, Map<Seq<char>, Seq<char>>, bool)>,
) -> bool {
    match o {
        Some(t) => t.2,
        None => false,
    }
}

/// `r` is the outcome that `expected` describes.
pub open spec fn outcome_is(
    r: Result<ServerEnvBootstrap, BootstrapError>,
    expected: Option<(Map<Seq<char>, Seq<char>>, Map<Seq<char>, Seq<char>>, bool)>,
) -> bool {
    match expected {
        None => r matches Err(BootstrapError::EncryptedCredentialsWithoutKey),
        Some(out) => match r {
            Ok(b) => {
                &&& b.server_env.wf()
                &&& b.server_env@ == out.0
                &&& if out.2 {
                    b.persist matches Some(p) && p.wf() && p@ == out.1
                } else {
                    b.persist is None
                }
            },
            Err(_) => false,
        },
    }
}

/// Merges the three sources, each overriding the one before it.
pub fn merge_env(persisted: &EnvMap, preferred: &EnvMap, process: &EnvMap) -> (r: EnvMap)
    requires
        persisted.wf(),
        preferred.wf(),
        process.wf(),
    ensures
        r.wf(),
        r@ == merged_env_spec(persisted@, preferred@, process@),
{
    let mut r = persisted.duplicate();
    insert_all(&mut r, preferred);
    insert_all(&mut r, process);
    assert(r@ =~= merged_env_spec(persisted@, preferred@, process@));
    r
}

/// Sets every entry of `from` in `into`.
fn insert_all(into: &mut EnvMap, from: &EnvMap)
    requires
        old(into).wf(),
        from.wf(),
    ensures
        final(into).wf(),
        final(into)@ == old(into)@.union_prefer_right(from@),
{
    let entries = from.entries();
    let ghost s = from.pairs();
    let n = entries.len();
    let mut i: usize = 0;
    assert(s.take(0) =~= Seq::<(Seq<char>, Seq<char>)>::empty());
    assert(old(into)@.union_prefer_right(crate::env_map::pairs_to_map(s.take(0))) =~= old(into)@);
    while i < n
        invariant
            n == entries@.len(),
            s == crate::env_map::pairs_view(entries@),
            crate::env_map::keys_unique(s),
            i <= n,
            into.wf(),
            into@ == old(into)@.union_prefer_right(crate::env_map::pairs_to_map(s.take(i as int))),
        decreases n - i,
    {
        let k = entries[i].0.clone();
        let v = entries[i].1.clone();
        into.insert(k, v);
        proof {
            assert(s.take(i + 1) =~= s.take(i as int).push(s[i as int]));
            assert(!crate::env_map::has_key(s.take(i as int), s[i as int].0)) by {
                if crate::env_map::has_key(s.take(i as int), s[i as int].0) {
                    let j = choose|j: int|
                        0 <= j < i && #[trigger] s.take(i as int)[j].0 == s[i as int].0;
                    assert(s[j].0 != s[i as int].0);
                }
            }
            assert(crate::env_map::keys_unique(s.take(i as int))) by {
                assert forall|a: int, b: int|
                    0 <= a < s.take(i as int).len() && 0 <= b < s.take(i as int).len() && a
                        != b implies #[trigger] s.take(i as int)[a].0
                    != #[trigger] s.take(i as int)[b].0 by {
                    assert(s[a].0 != s[b].0);
                }
            }
            crate::env_map::lemma_pairs_to_map_push(s.take(i as int), s[i as int].0, s[i as int].1);
            assert(into@ =~= old(into)@.union_prefer_right(
                crate::env_map::pairs_to_map(s.take(i + 1)),
            ));
        }
        i = i + 1;
    }
    assert(s.take(n as int) =~= s);
}

/// Completes the merged environment with the given secrets where it lacks
/// them, as `bootstrap_spec` describes.
pub fn complete_server_env(
    merged: EnvMap,
    persisted: EnvMap,
    encrypted_credentials: bool,
    jwt: String,
    storage: String,
    api: String,
) -> (r: Result<ServerEnvBootstrap, BootstrapError>)
    requires
        merged.wf(),
        persisted.wf(),
    ensures
        outcome_is(r, bootstrap_spec(merged@, persisted@, encrypted_credentials, jwt@, storage@, api@)),
{
    proof {
        lemma_keys_distinct();
    }
    let ghost spec = bootstrap_spec(merged@, persisted@, encrypted_credentials, jwt@, storage@, api@);
    let ghost m0 = merged@;
    let need_jwt = !merged.contains_key("JWT_SECRET");
    let need_storage = !merged.contains_key("STORAGE_ENCRYPTION_KEY");
    let need_api = !merged.contains_key("API_KEY_SECRET");
    if need_storage && encrypted_credentials {
        return Err(BootstrapError::EncryptedCredentialsWithoutKey);
    }
    let mut env = merged;
    let mut persist = persisted;
    if need_jwt {
        env.insert("JWT_SECRET".to_owned(), jwt.clone());
        persist.insert("JWT_SECRET".to_owned(), jwt);
    }
    if need_storage {
        env.insert("STORAGE_ENCRYPTION_KEY".to_owned(), storage.clone());
        persist.insert("STORAGE_ENCRYPTION_KEY".to_owned(), storage);
        persist.insert("STORAGE_ENCRYPTION_KEY_VERSION".to_owned(), "v1".to_owned());
    }
    if need_api {
        env.insert("API_KEY_SECRET".to_owned(), api.clone());
        persist.insert("API_KEY_SECRET".to_owned(), api);
    }
    let changed = need_jwt || need_storage || need_api;
    let ghost expected = spec->0;
    if changed {
        env.insert("OMNIROUTE_BOOTSTRAPPED".to_owned(), "true".to_owned());
        assert(env@ =~= expected.0);
        assert(persist@ =~= expected.1);
        Ok(ServerEnvBootstrap { server_env: env, persist: Some(persist) })
    } else {
        assert(env@ =~= expected.0);
        Ok(ServerEnvBootstrap { server_env: env, persist: None })
    }
}

/// The bootstrap refuses: no storage key is configured but encrypted
/// credentials exist.
pub open spec fn refuses(merged: Map<Seq<char>, Seq<char>>, encrypted_credentials: bool) -> bool {
    !merged.contains_key(storage_key()) && encrypted_credentials
}

/// Some secret is missing from `merged`, so the bootstrap draws randomness.
pub open spec fn needs_secret(merged: Map<Seq<char>, Seq<char>>) -> bool {
    !merged.contains_key(jwt_key()) || !merged.contains_key(storage_key()) || !merged.contains_key(api_key())
}

/// `s` is a fit value for a secret of `n` bytes when the secret is needed
/// (any value otherwise, as it is then not used).
pub open spec fn fit_secret(needed: bool, s: Seq<char>, n: nat) -> bool {
    needed ==> is_hex_secret(s, n)
}

/// One secret of `n` bytes when `needed`, else the empty string; `None` when
/// the generator fails.
pub(crate) fn secret_if(needed: bool, n: usize) -> (r: Option<String>)
    ensures
        r matches Some(s) ==> fit_secret(needed, s@, n as nat),
        !needed ==> r is Some,
{
    if needed {
        random_hex(n)
    } else {
        Some(String::new())
    }
}

/// Bootstraps the server environment from the merged environment and the
/// persisted entries: each of `JWT_SECRET` (64 random bytes),
/// `STORAGE_ENCRYPTION_KEY` (32) and `API_KEY_SECRET` (32) that `merged`
/// lacks is generated as lowercase hex and persisted, except that a missing
/// storage key with encrypted credentials already stored is refused. It
/// fails with `RandomUnavailable` only when a secret is missing and the
/// operating system's generator fails.
pub fn bootstrap_server_env(merged: EnvMap, persisted: EnvMap, encrypted_credentials: bool) -> (r:
    Result<ServerEnvBootstrap, BootstrapError>)
    requires
        merged.wf(),
        persisted.wf(),
    ensures
        r matches Err(BootstrapError::EncryptedCredentialsWithoutKey) <==> refuses(merged@, encrypted_credentials),
        r matches Err(BootstrapError::RandomUnavailable) ==> !refuses(merged@, encrypted_credentials)
            && needs_secret(merged@),
        r is Ok ==> exists|jwt: Seq<char>, storage: Seq<char>, api: Seq<char>|
            #![trigger bootstrap_spec(merged@, persisted@, encrypted_credentials, jwt, storage, api)]
            fit_secret(!merged@.contains_key(jwt_key()), jwt, 64)
                && fit_secret(!merged@.contains_key(storage_key()), storage, 32)
                && fit_secret(!merged@.contains_key(api_key()), api, 32)
                && outcome_is(r, bootstrap_spec(merged@, persisted@, encrypted_credentials, jwt, storage, api)),
{
    let need_jwt = !merged.contains_key("JWT_SECRET");
    let need_storage = !merged.contains_key("STORAGE_ENCRYPTION_KEY");
    let need_api = !merged.contains_key("API_KEY_SECRET");
    if need_storage && encrypted_credentials {
        return Err(BootstrapError::EncryptedCredentialsWithoutKey);
    }
    let jwt = match secret_if(need_jwt, 64) {
        Some(s) => s,
        None => return Err(BootstrapError::RandomUnavailable),
    };
    let storage = match secret_if(need_storage, 32) {
        Some(s) => s,
        None => return Err(BootstrapError::RandomUnavailable),
    };
    let api = match secret_if(need_api, 32) {
        Some(s) => s,
        None => return Err(BootstrapError::RandomUnavailable),
    };
    let ghost (j, s, a) = (jwt@, storage@, api@);
    let r = complete_server_env(merged, persisted, encrypted_credentials, jwt, storage, api);
    r
}

// ---------------------------------------------------------------------------
// Secrets survive restarts
// ---------------------------------------------------------------------------

proof fn lemma_hex_secret_safe(s: Seq<char>, n: nat)
    requires
        is_hex_secret(s, n),
        n > 0,
    ensures
        s.len() > 0,
        is_trimmed(s),
        no_char(s, '\n'),
{
    let b = choose|b: Seq<u8>| b.len() == n && s == #[trigger] hex_lower(b);
    lemma_hex_lower_shape(b);
    assert(is_lower_hex(s[0]));
    assert(is_lower_hex(s[s.len() - 1]));
    assert forall|i: int| 0 <= i < s.len() implies s[i] != '\n' by {
        assert(is_lower_hex(s[i]));
    }
}

proof fn lemma_key_safe(k: Seq<char>, v: Seq<char>)
    requires
        k == jwt_key() || k == storage_key() || k == storage_version_key() || k == api_key(),
        v.len() > 0,
        is_trimmed(v),
        no_char(v, '\n'),
    ensures
        env_file_safe_entry(k, v),
{
    reveal_strlit("JWT_SECRET");
    reveal_strlit("STORAGE_ENCRYPTION_KEY");
    reveal_strlit("STORAGE_ENCRYPTION_KEY_VERSION");
    reveal_strlit("API_KEY_SECRET");
    assert(k[0] != '#');
    assert(!is_white_space(k[0]));
    assert(!is_white_space(k.last()));
    assert(no_char(k, '=') && no_char(k, '\n'));
}

proof fn lemma_version_value_safe()
    ensures
        version_value().len() > 0,
        is_trimmed(version_value()),
        no_char(version_value(), '\n'),
{
    reveal_strlit("v1");
}

/// The entries that a bootstrap persists are safe to persist when the
/// persisted entries it started from are.
proof fn lemma_persist_safe(
    merged: Map<Seq<char>, Seq<char>>,
    persisted: Map<Seq<char>, Seq<char>>,
    encrypted_credentials: bool,
    jwt: Seq<char>,
    storage: Seq<char>,
    api: Seq<char>,
)
    requires
        env_file_safe(persisted),
        fit_secret(!merged.contains_key(jwt_key()), jwt, 64),
        fit_secret(!merged.contains_key(storage_key()), storage, 32),
        fit_secret(!merged.contains_key(api_key()), api, 32),
        bootstrap_spec(merged, persisted, encrypted_credentials, jwt, storage, api) is Some,
    ensures
        env_file_safe(persist_of(bootstrap_spec(merged, persisted, encrypted_credentials, jwt, storage, api))),
{
    lemma_version_value_safe();
    lemma_key_safe(storage_version_key(), version_value());
    if !merged.contains_key(jwt_key()) {
        lemma_hex_secret_safe(jwt, 64);
        lemma_key_safe(jwt_key(), jwt);
    }
    if !merged.contains_key(storage_key()) {
        lemma_hex_secret_safe(storage, 32);
        lemma_key_safe(storage_key(), storage);
    }
    if !merged.contains_key(api_key()) {
        lemma_hex_secret_safe(api, 32);
        lemma_key_safe(api_key(), api);
    }
}

/// Secrets survive restarts. Take a bootstrap that starts from the entries
/// read from `server.env` and generates a secret, and let `written` be what
/// it writes back (the rendering of the entries to persist). The next
/// bootstrap, which reads `written`, with the same preferred file and process
/// environment, generates nothing, keeps the persisted entries as they are,
/// and gives the server the same three secrets as the first.
pub proof fn lemma_secrets_survive_restart(
    persisted_text: Seq<char>,
    preferred: Map<Seq<char>, Seq<char>>,
    process: Map<Seq<char>, Seq<char>>,
    encrypted_credentials: bool,
    jwt: Seq<char>,
    storage: Seq<char>,
    api: Seq<char>,
    written: Seq<char>,
    encrypted_credentials_later: bool,
    jwt_later: Seq<char>,
    storage_later: Seq<char>,
    api_later: Seq<char>,
)
    requires
        fit_secret(!merged_env_spec(parse_env_spec(persisted_text), preferred, process).contains_key(jwt_key()), jwt, 64),
        fit_secret(
            !merged_env_spec(parse_env_spec(persisted_text), preferred, process).contains_key(storage_key()),
            storage,
            32,
        ),
        fit_secret(!merged_env_spec(parse_env_spec(persisted_text), preferred, process).contains_key(api_key()), api, 32),
        bootstrap_spec(
            merged_env_spec(parse_env_spec(persisted_text), preferred, process),
            parse_env_spec(persisted_text),
            encrypted_credentials,
            jwt,
            storage,
            api,
        ) is Some,
        changed_of(bootstrap_spec(
            merged_env_spec(parse_env_spec(persisted_text), preferred, process),
            parse_env_spec(persisted_text),
            encrypted_credentials,
            jwt,
            storage,
            api,
        )),
        is_rendering_of(
            written,
            persist_of(bootstrap_spec(
                merged_env_spec(parse_env_spec(persisted_text), preferred, process),
                parse_env_spec(persisted_text),
                encrypted_credentials,
                jwt,
                storage,
                api,
            )),
        ),
    ensures
        ({
            let first = bootstrap_spec(
                merged_env_spec(parse_env_spec(persisted_text), preferred, process),
                parse_env_spec(persisted_text),
                encrypted_credentials,
                jwt,
                storage,
                api,
            )->0;
            let reread = parse_env_spec(written);
            let merged_later = merged_env_spec(reread, preferred, process);
            &&& reread == first.1
            &&& bootstrap_spec(
                merged_later,
                reread,
                encrypted_credentials_later,
                jwt_later,
                storage_later,
                api_later,
            ) == Some((merged_later, reread, false))
            &&& merged_later[jwt_key()] == first.0[jwt_key()]
            &&& merged_later[storage_key()] == first.0[storage_key()]
            &&& merged_later[api_key()] == first.0[api_key()]
        }),
{
    let persisted = parse_env_spec(persisted_text);
    let merged = merged_env_spec(persisted, preferred, process);
    let first = bootstrap_spec(merged, persisted, encrypted_credentials, jwt, storage, api)->0;
    lemma_keys_distinct();
    lemma_parse_is_safe(persisted_text);
    lemma_persist_safe(merged, persisted, encrypted_credentials, jwt, storage, api);
    lemma_env_file_roundtrip(first.1, written);
    let reread = parse_env_spec(written);
    let merged_later = merged_env_spec(reread, preferred, process);
    assert(merged_later.contains_key(jwt_key()));
    assert(merged_later.contains_key(storage_key()));
    assert(merged_later.contains_key(api_key()));
}

} // verus!
