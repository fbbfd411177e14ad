use omniroute::env_file::{parse_env_file, render_env_file};
use omniroute::env_map::EnvMap;

#[test]
fn later_lines_win_and_text_is_trimmed() {
    let env = parse_env_file("  A = 1 \nA=2\r\nB==x=\n=skipped\nnoequals\n   # c=d\n");
    assert_eq!(env.get("A").unwrap(), "2");
    assert_eq!(env.get("B").unwrap(), "=x=");
    assert_eq!(env.len(), 2);
    assert!(!env.contains_key(""));
}

#[test]
fn empty_value_is_kept() {
    let env = parse_env_file("EMPTY=\nX=y");
    assert_eq!(env.get("EMPTY").unwrap(), "");
    assert_eq!(env.get("X").unwrap(), "y");
}

#[test]
fn render_sorts_keys_and_frames_the_file() {
    let mut m = EnvMap::new();
    m.insert("ZED".into(), "1".into());
    m.insert("ALPHA".into(), "2".into());
    m.insert("MID".into(), "3".into());
    assert_eq!(
        render_env_file(&m),
        "# Auto-generated by OmniRoute bootstrap\n\nALPHA=2\nMID=3\nZED=1\n"
    );
    assert_eq!(render_env_file(&EnvMap::new()), "# Auto-generated by OmniRoute bootstrap\n\n");
}

#[test]
fn rendering_parses_back() {
    let first = parse_env_file("B=2\nA=1\nC = three words \n");
    let text = render_env_file(&first);
    let back = parse_env_file(&text);
    assert_eq!(back.len(), first.len());
    for (k, v) in first.entries() {
        assert_eq!(back.get(k), Some(v));
    }
}

#[test]
fn insert_replaces_in_place() {
    let mut m = EnvMap::new();
    m.insert("K".into(), "1".into());
    m.insert("L".into(), "2".into());
    m.insert("K".into(), "3".into());
    assert_eq!(m.len(), 2);
    assert_eq!(m.entries()[0], ("K".to_string(), "3".to_string()));
    let d = m.duplicate();
    assert_eq!(d.entries(), m.entries());
}
