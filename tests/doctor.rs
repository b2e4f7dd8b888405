use dcx::doctor::{check_relay_exists, parse_version_str};

#[test]
fn parse_version_basic_semver() {
    assert_eq!(parse_version_str("1.17.2"), Some("1.17.2".to_string()));
}

#[test]
fn parse_version_with_v_prefix() {
    assert_eq!(parse_version_str("v0.71.0"), Some("0.71.0".to_string()));
}

#[test]
fn parse_version_two_part_version() {
    assert_eq!(parse_version_str("Docker 27.1"), Some("27.1".to_string()));
}

#[test]
fn parse_version_empty_input() {
    assert_eq!(parse_version_str(""), None);
}

#[test]
fn parse_version_returns_first_match() {
    assert_eq!(
        parse_version_str("version 1.0.0 and 2.0.0"),
        Some("1.0.0".to_string())
    );
}

#[test]
fn parse_version_ignores_single_number() {
    // A lone number with no dots is not a version string.
    assert_eq!(parse_version_str("42"), None);
}

#[test]
fn parse_version_trailing_comma_stripped() {
    assert_eq!(
        parse_version_str("colima version 0.8.1,"),
        Some("0.8.1".to_string())
    );
}

#[test]
fn parse_version_prerelease_suffix_returns_none() {
    // Pre-release suffixes like `-rc1` make the last part non-numeric,
    // so the token is not recognised as a version string.
    assert_eq!(parse_version_str("1.2.0-rc1"), None);
}

#[test]
fn check_relay_exists_fails_when_relay_dir_absent() {
    let home = tempfile::tempdir().unwrap();
    // .colima-mounts is NOT created
    let home = home.path().to_str().unwrap();
    let exists = std::path::Path::new(&format!("{home}/.colima-mounts")).is_dir();
    let check = check_relay_exists(home, exists);
    assert!(!check.passed, "should fail when .colima-mounts is missing");
    let detail = check.detail.expect("detail should contain a fix hint");
    assert!(
        detail.contains("mkdir"),
        "fix hint should mention mkdir: {detail}"
    );
}
