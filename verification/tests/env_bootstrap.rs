use omniroute::env_bootstrap::{
    bootstrap_server_env, complete_server_env, contains_encrypted_marker, merge_env,
    preferred_env_candidates, refusal_message, BootstrapError,
};
use omniroute::env_file::{parse_env_file, render_env_file};
use omniroute::env_map::EnvMap;
use omniroute::paths::PathBase;
use omniroute::random_hex::random_hex;

fn map_of(pairs: &[(&str, &str)]) -> EnvMap {
    let mut m = EnvMap::new();
    for (k, v) in pairs {
        m.insert(k.to_string(), v.to_string());
    }
    m
}

#[test]
fn parses_simple_env_file() {
    let env = parse_env_file("# comment\nFOO=bar\nBAZ=qux\n\n");
    assert_eq!(env.get("FOO").map(|s| s.as_str()), Some("bar"));
    assert_eq!(env.get("BAZ").map(|s| s.as_str()), Some("qux"));
    assert!(!env.contains_key("# comment"));
}

#[test]
fn ignores_blank_and_comment_lines() {
    let env = parse_env_file("\n# hi\n\nKEY=val\n");
    assert_eq!(env.len(), 1);
    assert_eq!(env.get("KEY").map(|s| s.as_str()), Some("val"));
}

#[test]
fn random_hex_is_correct_length() {
    let h = random_hex(32).unwrap();
    assert_eq!(h.len(), 64);
    assert!(h.chars().all(|c| c.is_ascii_hexdigit()));
}

#[test]
fn random_hex_is_lowercase_and_varies() {
    let a = random_hex(16).unwrap();
    let b = random_hex(16).unwrap();
    assert_eq!(a.len(), 32);
    assert!(a.chars().all(|c| c.is_ascii_digit() || ('a'..='f').contains(&c)));
    assert_ne!(a, b);
    assert_eq!(random_hex(0).as_deref(), Some(""));
}

#[test]
fn merge_prefers_process_over_preferred_over_persisted() {
    let persisted = map_of(&[("A", "persisted"), ("B", "persisted"), ("C", "persisted")]);
    let preferred = map_of(&[("B", "preferred"), ("C", "preferred")]);
    let process = map_of(&[("C", "process"), ("D", "process")]);
    let merged = merge_env(&persisted, &preferred, &process);
    assert_eq!(merged.get("A").unwrap(), "persisted");
    assert_eq!(merged.get("B").unwrap(), "preferred");
    assert_eq!(merged.get("C").unwrap(), "process");
    assert_eq!(merged.get("D").unwrap(), "process");
    assert_eq!(merged.len(), 4);
}

#[test]
fn bootstrap_generates_all_missing_secrets() {
    let merged = map_of(&[("PATH", "/bin")]);
    let persisted = EnvMap::new();
    let out = complete_server_env(
        merged,
        persisted,
        false,
        "j".repeat(128),
        "s".repeat(64),
        "a".repeat(64),
    )
    .ok()
    .unwrap();
    let env = &out.server_env;
    assert_eq!(env.get("JWT_SECRET").unwrap(), &"j".repeat(128));
    assert_eq!(env.get("STORAGE_ENCRYPTION_KEY").unwrap(), &"s".repeat(64));
    assert_eq!(env.get("API_KEY_SECRET").unwrap(), &"a".repeat(64));
    assert_eq!(env.get("OMNIROUTE_BOOTSTRAPPED").unwrap(), "true");
    assert!(!env.contains_key("STORAGE_ENCRYPTION_KEY_VERSION"));
    let persist = out.persist.unwrap();
    assert_eq!(persist.len(), 4);
    assert_eq!(persist.get("STORAGE_ENCRYPTION_KEY_VERSION").unwrap(), "v1");
    assert!(!persist.contains_key("OMNIROUTE_BOOTSTRAPPED"));
}

#[test]
fn bootstrap_keeps_configured_secrets() {
    let merged = map_of(&[
        ("JWT_SECRET", "mine"),
        ("STORAGE_ENCRYPTION_KEY", "key"),
        ("API_KEY_SECRET", "api"),
    ]);
    let out = complete_server_env(merged, EnvMap::new(), true, "x".into(), "y".into(), "z".into())
        .ok()
        .unwrap();
    assert!(out.persist.is_none());
    assert_eq!(out.server_env.get("JWT_SECRET").unwrap(), "mine");
    assert!(!out.server_env.contains_key("OMNIROUTE_BOOTSTRAPPED"));
}

#[test]
fn bootstrap_refuses_new_storage_key_over_encrypted_credentials() {
    let merged = map_of(&[("JWT_SECRET", "mine")]);
    let r = bootstrap_server_env(merged, EnvMap::new(), true);
    assert!(matches!(r, Err(BootstrapError::EncryptedCredentialsWithoutKey)));
}

#[test]
fn bootstrap_random_secrets_have_documented_sizes() {
    let out = bootstrap_server_env(EnvMap::new(), EnvMap::new(), false).ok().unwrap();
    assert_eq!(out.server_env.get("JWT_SECRET").unwrap().len(), 128);
    assert_eq!(out.server_env.get("STORAGE_ENCRYPTION_KEY").unwrap().len(), 64);
    assert_eq!(out.server_env.get("API_KEY_SECRET").unwrap().len(), 64);
}

#[test]
fn secrets_survive_a_restart() {
    let persisted_text = "# old\nEXTRA = kept \n";
    let persisted = parse_env_file(persisted_text);
    let preferred = map_of(&[("API_KEY_SECRET", "from-dotenv")]);
    let process = map_of(&[("HOME", "/root")]);
    let merged = merge_env(&persisted, &preferred, &process);
    let first = bootstrap_server_env(merged, persisted, false).ok().unwrap();
    let written = render_env_file(first.persist.as_ref().unwrap());

    let reread = parse_env_file(&written);
    let merged2 = merge_env(&reread, &preferred, &process);
    let second = bootstrap_server_env(merged2, reread, true).ok().unwrap();
    assert!(second.persist.is_none());
    for k in ["JWT_SECRET", "STORAGE_ENCRYPTION_KEY", "API_KEY_SECRET"] {
        assert_eq!(second.server_env.get(k), first.server_env.get(k));
    }
    assert_eq!(second.server_env.get("EXTRA").unwrap(), "kept");
}

#[test]
fn encrypted_marker_is_found_anywhere() {
    assert!(contains_encrypted_marker(b"xxenc:v1:abc"));
    assert!(contains_encrypted_marker(b"enc:v1:"));
    assert!(!contains_encrypted_marker(b"enc:v1"));
    assert!(!contains_encrypted_marker(b"enc:v2:abc"));
    assert!(!contains_encrypted_marker(b""));
}

#[test]
fn refusal_message_names_both_files() {
    assert_eq!(
        refusal_message("/d/storage.sqlite", "/d/server.env"),
        "Refusing to auto-generate STORAGE_ENCRYPTION_KEY: encrypted credentials already exist in /d/storage.sqlite. Restore the key via an appropriate .env file, /d/server.env, or process.env."
    );
}

#[test]
fn preferred_env_candidates_follow_data_dir_variable() {
    let c = preferred_env_candidates(Some("  /data  "));
    assert_eq!(c.len(), 3);
    assert!(matches!(&c[0].base, PathBase::Given(g) if g == "/data"));
    assert_eq!(c[0].parts, vec![".env".to_string()]);
    assert!(matches!(c[1].base, PathBase::DataDir));
    assert!(matches!(c[2].base, PathBase::CurrentDir));
    let c = preferred_env_candidates(Some("   "));
    assert_eq!(c.len(), 2);
    assert!(matches!(c[0].base, PathBase::DataDir));
}
