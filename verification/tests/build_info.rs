use hypodj::build_info::{compose, parse_describe, resolve, version, BuildInfo};

#[test]
fn parse_describe_clean_ahead() {
    assert_eq!(
        parse_describe("v0.1.0-7-ga86b53b").as_deref(),
        Some("count=7 hash=a86b53b dirty=0")
    );
}

#[test]
fn parse_describe_dirty() {
    assert_eq!(
        parse_describe("v0.1.0-7-ga86b53b-dirty").as_deref(),
        Some("count=7 hash=a86b53b dirty=1")
    );
}

#[test]
fn parse_describe_on_tag() {
    assert_eq!(
        parse_describe("v0.1.0-0-ga86b53b").as_deref(),
        Some("count=0 hash=a86b53b dirty=0")
    );
}

#[test]
fn parse_describe_prerelease_tag_with_hyphens() {
    assert_eq!(
        parse_describe("v1.0.0-alpha.5-4-gdeadbee").as_deref(),
        Some("count=4 hash=deadbee dirty=0")
    );
}

#[test]
fn parse_describe_garbage() {
    assert_eq!(parse_describe("not-a-describe"), None);
    assert_eq!(parse_describe(""), None);
}

#[test]
fn compose_ahead() {
    assert_eq!(
        compose("0.1.0", Some("count=5 hash=1bd6f7a dirty=0")),
        "0.1.0 +5 (g1bd6f7a)"
    );
}

#[test]
fn compose_on_tag_bare() {
    assert_eq!(
        compose("0.1.0", Some("count=0 hash=1bd6f7a dirty=0")),
        "0.1.0"
    );
}

#[test]
fn compose_dirty() {
    assert_eq!(
        compose("0.1.0", Some("count=5 hash=1bd6f7a dirty=1")),
        "0.1.0 +5 (g1bd6f7a-dirty)"
    );
}

#[test]
fn compose_on_tag_dirty_flags_uncommitted() {
    assert_eq!(
        compose("0.1.0", Some("count=0 hash=1bd6f7a dirty=1")),
        "0.1.0 (g1bd6f7a-dirty)"
    );
}

#[test]
fn compose_hash_only_unknown_count() {
    assert_eq!(
        compose("0.1.0", Some("hash=1bd6f7a dirty=0")),
        "0.1.0 (g1bd6f7a)"
    );
}

#[test]
fn compose_no_build_info_bare() {
    assert_eq!(compose("0.1.0", None), "0.1.0");
    assert_eq!(compose("0.1.0", Some("")), "0.1.0");
}

#[test]
fn compose_non_semver_base_bare() {
    assert_eq!(compose("dev", Some("count=5 hash=1bd6f7a dirty=0")), "dev");
    assert_eq!(compose("", Some("count=5 hash=1bd6f7a dirty=0")), "");
}

#[test]
fn compose_count_only_no_hash() {
    assert_eq!(compose("0.1.0", Some("count=3 dirty=0")), "0.1.0 +3");
}

#[test]
fn buildinfo_parse_empty() {
    assert_eq!(BuildInfo::parse("  "), BuildInfo::default());
}

#[test]
fn the_compiled_in_fields_come_first() {
    assert_eq!(resolve(Some("count=1"), Some("count=2")).as_deref(), Some("count=1"));
    assert_eq!(resolve(None, Some("count=2")).as_deref(), Some("count=2"));
    assert_eq!(resolve(Some("  "), Some("count=2")).as_deref(), Some("count=2"));
    assert_eq!(resolve(None, None), None);
}

#[test]
fn a_version_tells_the_build() {
    assert_eq!(version("0.1.0", Some("count=5 hash=1bd6f7a dirty=0"), None), "0.1.0 +5 (g1bd6f7a)");
    assert_eq!(version("0.1.0", None, None), "0.1.0");
}

#[test]
fn described_fields_read_back() {
    let fields = parse_describe("v0.1.0-7-ga86b53b-dirty").unwrap();
    let b = BuildInfo::parse(&fields);
    assert_eq!(b, BuildInfo { count: Some(7), hash: Some("a86b53b".to_string()), dirty: true });
}
