use omniroute::env_bootstrap::BootstrapError;
use omniroute::env_map::EnvMap;
use omniroute::paths::PathBase;
use omniroute::secrets::{bootstrap, complete_bootstrap, preferred_env_candidates, resolve_data_dir};

fn map_of(pairs: &[(&str, &str)]) -> EnvMap {
    let mut m = EnvMap::new();
    for (k, v) in pairs {
        m.insert(k.to_string(), v.to_string());
    }
    m
}

fn get<'a>(m: &'a EnvMap, k: &str) -> Option<&'a str> {
    m.get(k).map(|s| s.as_str())
}

#[test]
fn secrets_fill_in_missing_values_and_version() {
    let merged = map_of(&[("PORT", "1")]);
    let out = complete_bootstrap(merged, EnvMap::new(), false, "j".into(), "s".into(), "a".into())
        .ok()
        .unwrap();
    assert!(out.result.changed);
    let env = &out.result.env;
    assert_eq!(get(env, "JWT_SECRET"), Some("j"));
    assert_eq!(get(env, "STORAGE_ENCRYPTION_KEY"), Some("s"));
    assert_eq!(get(env, "STORAGE_ENCRYPTION_KEY_VERSION"), Some("v1"));
    assert_eq!(get(env, "API_KEY_SECRET"), Some("a"));
    assert_eq!(get(env, "OMNIROUTE_BOOTSTRAPPED"), Some("true"));
    assert_eq!(get(env, "PORT"), Some("1"));
    let persist = out.persist.unwrap();
    assert_eq!(persist.len(), 5);
    assert_eq!(get(&persist, "OMNIROUTE_BOOTSTRAPPED"), Some("true"));
    assert!(!persist.contains_key("PORT"));
}

#[test]
fn secrets_unchanged_when_configured() {
    let merged = map_of(&[("JWT_SECRET", "x"), ("STORAGE_ENCRYPTION_KEY", "y"), ("API_KEY_SECRET", "z")]);
    let out = complete_bootstrap(merged, EnvMap::new(), true, "j".into(), "s".into(), "a".into())
        .ok()
        .unwrap();
    assert!(!out.result.changed);
    assert!(out.persist.is_none());
    assert_eq!(out.result.env.len(), 3);
    assert_eq!(get(&out.result.env, "JWT_SECRET"), Some("x"));
}

#[test]
fn secrets_refuse_new_key_over_encrypted_data() {
    let r = complete_bootstrap(EnvMap::new(), EnvMap::new(), true, "j".into(), "s".into(), "a".into());
    assert!(matches!(r, Err(BootstrapError::EncryptedCredentialsWithoutKey)));
    assert!(matches!(
        bootstrap(map_of(&[("JWT_SECRET", "x")]), EnvMap::new(), true),
        Err(BootstrapError::EncryptedCredentialsWithoutKey)
    ));
}

#[test]
fn secrets_generated_as_hex() {
    let out = bootstrap(EnvMap::new(), EnvMap::new(), false).ok().unwrap();
    let env = &out.result.env;
    assert_eq!(get(env, "JWT_SECRET").unwrap().len(), 128);
    assert_eq!(get(env, "STORAGE_ENCRYPTION_KEY").unwrap().len(), 64);
    assert_eq!(get(env, "API_KEY_SECRET").unwrap().len(), 64);
    assert!(get(env, "JWT_SECRET").unwrap().chars().all(|c| c.is_ascii_hexdigit()));
}

#[test]
fn secrets_data_dir_and_candidates() {
    let p = resolve_data_dir(None, false, false, None, false);
    assert!(matches!(p.base, PathBase::Given(ref d) if d == "omniroute"));
    let p = resolve_data_dir(None, true, false, None, false);
    assert!(matches!(p.base, PathBase::Given(ref d) if d == "omniroute"));
    let p = resolve_data_dir(Some("/d"), false, false, None, true);
    assert!(matches!(p.base, PathBase::Given(ref d) if d == "/d"));
    assert!(preferred_env_candidates(None, false).is_none());
    let c = preferred_env_candidates(Some("/d"), true).unwrap();
    assert_eq!(c.len(), 3);
    assert!(matches!(c[0].base, PathBase::Given(ref d) if d == "/d"));
    assert_eq!(c[0].parts, vec![".env"]);
    let c = preferred_env_candidates(None, true).unwrap();
    assert_eq!(c.len(), 2);
    assert!(matches!(c[0].base, PathBase::DataDir));
    assert!(matches!(c[1].base, PathBase::CurrentDir));
}

#[test]
fn secrets_need_no_randomness_when_configured() {
    let merged = map_of(&[("JWT_SECRET", "x"), ("STORAGE_ENCRYPTION_KEY", "y"), ("API_KEY_SECRET", "z")]);
    let out = bootstrap(merged, EnvMap::new(), false).ok().unwrap();
    assert!(!out.result.changed);
    assert!(out.persist.is_none());
}

#[test]
fn secrets_generate_only_missing_ones() {
    let merged = map_of(&[("JWT_SECRET", "x"), ("API_KEY_SECRET", "z")]);
    let out = bootstrap(merged, EnvMap::new(), false).ok().unwrap();
    let env = &out.result.env;
    assert_eq!(get(env, "JWT_SECRET"), Some("x"));
    assert_eq!(get(env, "API_KEY_SECRET"), Some("z"));
    assert_eq!(get(env, "STORAGE_ENCRYPTION_KEY").unwrap().len(), 64);
    let persist = out.persist.unwrap();
    assert!(!persist.contains_key("JWT_SECRET"));
    assert_eq!(persist.len(), 3);
}
