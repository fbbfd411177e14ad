//! The secret bootstrap as the standalone `secrets` module has it: the same
//! generation rules as `env_bootstrap`, except that the storage key's version
//! marker also goes into the environment and the bootstrapped marker is also
//! persisted, with a `changed` flag in the result.
use vstd::prelude::*;
use crate::env_bootstrap::{
    api_key, are_preferred_env_candidates, bootstrapped_key, fit_secret, jwt_key, lemma_keys_distinct, needs_secret, refuses,
    secret_if, storage_key, storage_version_key, true_value, version_value, BootstrapError,
};
use crate::env_map::EnvMap;
use crate::paths::{is_path_from, is_path_under, join, path_at, path_under, PathBase, PlannedPath};

use crate::text::{nonblank, nonblank_spec, opt_str_view};

verus! {

broadcast use vstd::map::group_map_axioms;

/// Where the data directory is, from the `DATA_DIR` variable, whether the
/// platform is Windows, whether `APPDATA` is set (and Unicode), the
/// `XDG_CONFIG_HOME` variable and whether the home directory is known:
/// `DATA_DIR` when not blank; on Windows `<APPDATA>/omniroute`, else
/// `~/AppData/Roaming/omniroute`; elsewhere `<XDG_CONFIG_HOME>/omniroute` when
/// not blank, else `~/.omniroute`; `omniroute` when there is no home.
pub fn resolve_data_dir(
    data_dir_env: Option<&str>,
    windows: bool,
    appdata_set: bool,
    xdg_config_home: Option<&str>,
    home_known: bool,
) -> (r: PlannedPath)
    ensures
        nonblank_spec(opt_str_view(data_dir_env)) matches Some(d) ==> is_path_from(r, d, seq![]),
        nonblank_spec(opt_str_view(data_dir_env)) is None ==> if windows {
            if appdata_set {
                is_path_under(r, PathBase::AppData, seq!["omniroute"@])
            } else if home_known {
                is_path_under(r, PathBase::Home, seq!["AppData"@, "Roaming"@, "omniroute"@])
            } else {
                is_path_from(r, "omniroute"@, seq![])
            }
        } else {
            if nonblank_spec(opt_str_view(xdg_config_home)) is Some {
                is_path_from(
                    r,
                    nonblank_spec(opt_str_view(xdg_config_home))->0,
                    seq!["omniroute"@],
                )
            } else if home_known {
                is_path_under(r, PathBase::Home, seq![".omniroute"@])
            } else {
                is_path_from(r, "omniroute"@, seq![])
            }
        },
{
    if let Some(d) = nonblank(data_dir_env) {
        return path_at(PathBase::Given(d.to_owned()));
    }
    if windows {
        if appdata_set {
            return path_under(PathBase::AppData, "omniroute");
        }
        if home_known {
            let p = path_under(PathBase::Home, "AppData");
            let p = join(p, "Roaming");
            let r = join(p, "omniroute");
            assert(crate::paths::parts_view(r) =~= seq!["AppData"@, "Roaming"@, "omniroute"@]);
            return r;
        }
        return path_at(PathBase::Given("omniroute".to_owned()));
    }
    if let Some(x) = nonblank(xdg_config_home) {
        return path_under(PathBase::Given(x.to_owned()), "omniroute");
    }
    if home_known {
        return path_under(PathBase::Home, ".omniroute");
    }
    path_at(PathBase::Given("omniroute".to_owned()))
}

/// The candidates for the preferred `.env` file, as this module lists them:
/// `<DATA_DIR>/.env` when `DATA_DIR` is set and not blank,
/// `<data dir>/.env`, then `<current dir>/.env`; none at all when the
/// current directory cannot be read (`cwd_known` false).
pub fn preferred_env_candidates(data_dir_env: Option<&str>, cwd_known: bool) -> (r: Option<Vec<PlannedPath>>)
    ensures
        !cwd_known ==> r is None,
        cwd_known ==> (r matches Some(v) && are_preferred_env_candidates(v@, opt_str_view(data_dir_env))),
{
    if !cwd_known {
        return None;
    }
    Some(crate::env_bootstrap::preferred_env_candidates(data_dir_env))
}

/// The result of a bootstrap: the merged environment and whether a secret
/// was generated.
pub struct BootstrapResult {
    /// Merged env: persisted `server.env` + `.env` + process env (last wins),
    /// completed with the generated secrets.
    pub env: EnvMap,
    pub changed: bool,
}

/// A bootstrap's result and, when it changed anything, the entries to
/// write to `server.env`.
pub struct SecretsBootstrap {
    pub result: BootstrapResult,
    pub persist: Option<EnvMap>,
}

/// What this module's bootstrap does; see `env_bootstrap::bootstrap_spec`
/// for the inputs. It differs in putting `STORAGE_ENCRYPTION_KEY_VERSION`
/// into the environment too and in persisting `OMNIROUTE_BOOTSTRAPPED`.
pub open spec fn secrets_bootstrap_spec(
    merged: Map<Seq<char>, Seq<char>>,
    persisted: Map<Seq<char>, Seq<char>>,
    encrypted_credentials: bool,
    jwt: Seq<char>,
    storage: Seq<char>,
    api: Seq<char>,
) -> Option<(Map<Seq<char>, Seq<char>>, Map<Seq<char>, Seq<char>>, bool)> {
    let need_jwt = !merged.contains_key(jwt_key());
    let need_storage = !merged.contains_key(storage_key());
    let need_api = !merged.contains_key(api_key());
    if need_storage && encrypted_credentials {
        None
    } else {
        let e1 = if need_jwt { merged.insert(jwt_key(), jwt) } else { merged };
        let p1 = if need_jwt { persisted.insert(jwt_key(), jwt) } else { persisted };
        let e2 = if need_storage {
            e1.insert(storage_key(), storage).insert(storage_version_key(), version_value())
        } else {
            e1
        };
        let p2 = if need_storage {
            p1.insert(storage_key(), storage).insert(storage_version_key(), version_value())
        } else {
            p1
        };
        let e3 = if need_api { e2.insert(api_key(), api) } else { e2 };
        let p3 = if need_api { p2.insert(api_key(), api) } else { p2 };
        let changed = need_jwt || need_storage || need_api;
        let e4 = if changed { e3.insert(bootstrapped_key(), true_value()) } else { e3 };
        let p4 = if changed { p3.insert(bootstrapped_key(), true_value()) } else { p3 };
        Some((e4, p4, changed))
    }
}

/// `r` is the outcome that `expected` describes.
pub open spec fn secrets_outcome_is(
    r: Result<SecretsBootstrap, BootstrapError>,
    expected: Option<(Map<Seq<char>, Seq<char>>, Map<Seq<char>, Seq<char>>, bool)>,
) -> bool {
    match expected {
        None => r matches Err(BootstrapError::EncryptedCredentialsWithoutKey),
        Some(out) => match r {
            Ok(b) => {
                &&& b.result.env.wf()
                &&& b.result.env@ == out.0
                &&& b.result.changed == out.2
                &&& if out.2 {
                    b.persist matches Some(p) && p.wf() && p@ == out.1
                } else {
                    b.persist is None
                }
            },
            Err(_) => false,
        },
    }
}

/// Completes the merged environment with the given secrets, as
/// `secrets_bootstrap_spec` describes.
pub fn complete_bootstrap(
    merged: EnvMap,
    persisted: EnvMap,
    encrypted_credentials: bool,
    jwt: String,
    storage: String,
    api: String,
) -> (r: Result<SecretsBootstrap, BootstrapError>)
    requires
        merged.wf(),
        persisted.wf(),
    ensures
        secrets_outcome_is(
            r,
            secrets_bootstrap_spec(merged@, persisted@, encrypted_credentials, jwt@, storage@, api@),
        ),
{
    proof {
        lemma_keys_distinct();
    }
    let ghost spec = secrets_bootstrap_spec(
        merged@,
        persisted@,
        encrypted_credentials,
        jwt@,
        storage@,
        api@,
    );
    let need_jwt = !merged.contains_key("JWT_SECRET");
    let need_storage = !merged.contains_key("STORAGE_ENCRYPTION_KEY");
    let need_api = !merged.contains_key("API_KEY_SECRET");
    if need_storage && encrypted_credentials {
        return Err(BootstrapError::EncryptedCredentialsWithoutKey);
    }
    let mut env = merged;
    let mut persist = persisted;
    if need_jwt {
        env.insert("JWT_SECRET".to_owned(), jwt.clone());
        persist.insert("JWT_SECRET".to_owned(), jwt);
    }
    if need_storage {
        env.insert("STORAGE_ENCRYPTION_KEY".to_owned(), storage.clone());
        persist.insert("STORAGE_ENCRYPTION_KEY".to_owned(), storage);
        env.insert("STORAGE_ENCRYPTION_KEY_VERSION".to_owned(), "v1".to_owned());
        persist.insert("STORAGE_ENCRYPTION_KEY_VERSION".to_owned(), "v1".to_owned());
    }
    if need_api {
        env.insert("API_KEY_SECRET".to_owned(), api.clone());
        persist.insert("API_KEY_SECRET".to_owned(), api);
    }
    let changed = need_jwt || need_storage || need_api;
    let ghost expected = spec->0;
    if changed {
        env.insert("OMNIROUTE_BOOTSTRAPPED".to_owned(), "true".to_owned());
        persist.insert("OMNIROUTE_BOOTSTRAPPED".to_owned(), "true".to_owned());
        assert(env@ =~= expected.0);
        assert(persist@ =~= expected.1);
        Ok(SecretsBootstrap { result: BootstrapResult { env, changed }, persist: Some(persist) })
    } else {
        assert(env@ =~= expected.0);
        Ok(SecretsBootstrap { result: BootstrapResult { env, changed }, persist: None })
    }
}

/// Runs the bootstrap on the merged environment and the persisted entries,
/// generating each missing secret (`JWT_SECRET` from 64 random bytes,
/// `STORAGE_ENCRYPTION_KEY` and `API_KEY_SECRET` from 32) as lowercase hex.
/// It fails with `RandomUnavailable` only when a secret is missing and the
/// operating system's generator fails.
pub fn bootstrap(merged: EnvMap, persisted: EnvMap, encrypted_credentials: bool) -> (r: Result<
    SecretsBootstrap,
    BootstrapError,
>)
    requires
        merged.wf(),
        persisted.wf(),
    ensures
        r matches Err(BootstrapError::EncryptedCredentialsWithoutKey) <==> refuses(merged@, encrypted_credentials),
        r matches Err(BootstrapError::RandomUnavailable) ==> !refuses(merged@, encrypted_credentials)
            && needs_secret(merged@),
        r is Ok ==> exists|jwt: Seq<char>, storage: Seq<char>, api: Seq<char>|
            #![trigger secrets_bootstrap_spec(merged@, persisted@, encrypted_credentials, jwt, storage, api)]
            fit_secret(!merged@.contains_key(jwt_key()), jwt, 64)
                && fit_secret(!merged@.contains_key(storage_key()), storage, 32)
                && fit_secret(!merged@.contains_key(api_key()), api, 32)
                && secrets_outcome_is(
                r,
                secrets_bootstrap_spec(merged@, persisted@, encrypted_credentials, jwt, storage, api),
            ),
{
    let need_jwt = !merged.contains_key("JWT_SECRET");
    let need_storage = !merged.contains_key("STORAGE_ENCRYPTION_KEY");
    let need_api = !merged.contains_key("API_KEY_SECRET");
    if need_storage && encrypted_credentials {
        return Err(BootstrapError::EncryptedCredentialsWithoutKey);
    }
    let jwt = match secret_if(need_jwt, 64) {
        Some(s) => s,
        None => return Err(BootstrapError::RandomUnavailable),
    };
    let storage = match secret_if(need_storage, 32) {
        Some(s) => s,
        None => return Err(BootstrapError::RandomUnavailable),
    };
    let api = match secret_if(need_api, 32) {
        Some(s) => s,
        None => return Err(BootstrapError::RandomUnavailable),
    };
    let ghost (j, s, a) = (jwt@, storage@, api@);
    complete_bootstrap(merged, persisted, encrypted_credentials, jwt, storage, api)
}

} // verus!
