use hypodj::client::config::{resolve, split_hostspec, Env};

fn env_of(pairs: &[(&str, &str)]) -> Vec<(String, String)> {
    pairs.iter().map(|(k, v)| (k.to_string(), v.to_string())).collect()
}

fn resolve_with(
    flag_host: Option<&str>,
    flag_port: Option<u16>,
    vars: Vec<(String, String)>,
) -> (String, u16) {
    let env = Env { vars };
    resolve(flag_host.map(str::to_string), flag_port, &env)
}

#[test]
fn default_is_live_port() {
    assert_eq!(resolve_with(None, None, env_of(&[])), ("127.0.0.1".into(), 6600));
}

#[test]
fn hypodj_env_beats_mpd() {
    let m = env_of(&[
        ("HYPODJ_HOST", "1.2.3.4"),
        ("HYPODJ_PORT", "6601"),
        ("MPD_HOST", "9.9.9.9"),
        ("MPD_PORT", "5000"),
    ]);
    assert_eq!(resolve_with(None, None, m), ("1.2.3.4".into(), 6601));
}

#[test]
fn mpd_hostspec_with_embedded_port() {
    let m = env_of(&[("MPD_HOST", "myhost:6601")]);
    assert_eq!(resolve_with(None, None, m), ("myhost".into(), 6601));
}

#[test]
fn explicit_port_env_beats_hostspec_port() {
    let m = env_of(&[("MPD_HOST", "myhost:6601"), ("MPD_PORT", "7000")]);
    assert_eq!(resolve_with(None, None, m), ("myhost".into(), 7000));
}

#[test]
fn flags_win() {
    let m = env_of(&[("HYPODJ_HOST", "1.2.3.4"), ("HYPODJ_PORT", "6601")]);
    assert_eq!(resolve_with(Some("host"), Some(9999), m), ("host".into(), 9999));
}

#[test]
fn bare_host_no_colon() {
    let m = env_of(&[("MPD_HOST", "localhost")]);
    assert_eq!(resolve_with(None, None, m), ("localhost".into(), 6600));
}

#[test]
fn a_port_that_is_none_is_passed_over() {
    let m = env_of(&[("HYPODJ_PORT", "port"), ("MPD_PORT", "7000")]);
    assert_eq!(resolve_with(None, None, m), ("127.0.0.1".into(), 7000));
    let m = env_of(&[("MPD_HOST", "secret@myhost:6601")]);
    assert_eq!(resolve_with(None, None, m), ("myhost".into(), 6601));
}

#[test]
fn a_host_is_split_at_its_last_colon() {
    assert_eq!(split_hostspec("a:b:1"), Some(("a:b".to_string(), "1".to_string())));
    assert_eq!(split_hostspec("host"), None);
}

#[test]
fn what_is_no_port_belongs_to_the_host() {
    assert_eq!(split_hostspec("myhost:99999"), None);
    assert_eq!(split_hostspec("myhost:65536"), None);
    assert_eq!(split_hostspec("myhost:+5"), None);
    assert_eq!(split_hostspec("myhost:"), None);
    assert_eq!(split_hostspec("myhost:65535"), Some(("myhost".to_string(), "65535".to_string())));
    let m = env_of(&[("MPD_HOST", "secret@myhost:99999")]);
    assert_eq!(resolve_with(None, None, m), ("myhost:99999".into(), 6600));
}
