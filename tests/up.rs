use dcx::up::{collision_error, dry_run_plan, tilde_path};

#[test]
fn tilde_path_abbreviates_home_prefix() {
    let home = "/home/user";
    let path = "/home/user/.colima-mounts/dcx-myproject-a1b2c3d4";
    assert_eq!(
        tilde_path(path, home),
        "~/.colima-mounts/dcx-myproject-a1b2c3d4"
    );
}

#[test]
fn tilde_path_leaves_non_home_path_unchanged() {
    let home = "/home/user";
    let path = "/tmp/something";
    assert_eq!(tilde_path(path, home), "/tmp/something");
}

#[test]
fn tilde_path_home_dir_itself_is_tilde() {
    let home = "/home/user";
    assert_eq!(tilde_path(home, home), "~");
}

#[test]
fn tilde_path_does_not_match_sibling_dir() {
    // /home/user2 must NOT be abbreviated for home=/home/user.
    let home = "/home/user";
    let path = "/home/user2/.colima-mounts/dcx-proj-a1b2c3d4";
    assert_eq!(
        tilde_path(path, home),
        "/home/user2/.colima-mounts/dcx-proj-a1b2c3d4"
    );
}

#[test]
fn dry_run_plan_contains_would_mount() {
    let home = "/home/user";
    let ws = "/home/user/myproject";
    let mp = "/home/user/.colima-mounts/dcx-myproject-a1b2c3d4";
    let out = dry_run_plan(ws, mp, home, None);
    assert!(out.contains("Would mount:"), "got: {out}");
    assert!(out.contains("/home/user/myproject"), "got: {out}");
    assert!(out.contains("dcx-myproject-a1b2c3d4"), "got: {out}");
}

#[test]
fn dry_run_plan_uses_tilde_for_mount_path() {
    let home = "/home/user";
    let ws = "/home/user/myproject";
    let mp = "/home/user/.colima-mounts/dcx-myproject-a1b2c3d4";
    let out = dry_run_plan(ws, mp, home, None);
    assert!(
        out.contains("~/.colima-mounts/dcx-myproject-a1b2c3d4"),
        "mount path must use tilde abbreviation, got: {out}"
    );
    assert!(
        !out.contains("/home/user/.colima-mounts"),
        "mount path must not use absolute path, got: {out}"
    );
}

#[test]
fn dry_run_plan_contains_would_run_devcontainer_up() {
    let home = "/home/user";
    let ws = "/home/user/myproject";
    let mp = "/home/user/.colima-mounts/dcx-myproject-a1b2c3d4";
    let out = dry_run_plan(ws, mp, home, None);
    assert!(out.contains("Would run:"), "got: {out}");
    assert!(
        out.contains("devcontainer up --workspace-folder"),
        "got: {out}"
    );
    assert!(out.contains("dcx-myproject-a1b2c3d4"), "got: {out}");
}

#[test]
fn dry_run_plan_arrow_between_workspace_and_mount() {
    let home = "/home/user";
    let ws = "/home/user/myproject";
    let mp = "/home/user/.colima-mounts/dcx-myproject-a1b2c3d4";
    let out = dry_run_plan(ws, mp, home, None);
    let arrow_pos = out
        .find('\u{2192}')
        .expect("→ arrow not found in dry-run output");
    let ws_pos = out.find("/home/user/myproject").unwrap();
    let mp_pos = out.find("dcx-myproject-a1b2c3d4").unwrap();
    assert!(ws_pos < arrow_pos, "workspace must appear before →");
    assert!(arrow_pos < mp_pos, "→ must appear before mount point");
}

#[test]
fn dry_run_plan_includes_config_flag_when_provided() {
    let home = "/home/user";
    let ws = "/home/user/myproject";
    let mp = "/home/user/.colima-mounts/dcx-myproject-a1b2c3d4";
    let cfg = "/home/user/myproject/.devcontainer/full/devcontainer.json";
    let out = dry_run_plan(ws, mp, home, Some(cfg));
    assert!(out.contains("--config"), "got: {out}");
    assert!(
        out.contains("/home/user/myproject/.devcontainer/full/devcontainer.json"),
        "got: {out}"
    );
}

#[test]
fn dry_run_plan_no_config_flag_when_absent() {
    let home = "/home/user";
    let ws = "/home/user/myproject";
    let mp = "/home/user/.colima-mounts/dcx-myproject-a1b2c3d4";
    let out = dry_run_plan(ws, mp, home, None);
    assert!(!out.contains("--config"), "got: {out}");
}

#[test]
fn collision_error_contains_all_required_fields() {
    let ws = "/home/bob/project-bar";
    let out = collision_error(ws, "/home/alice/project-foo", "a1b2c3d4");
    assert!(out.contains('\u{2717}'), "missing cross symbol: {out}");
    assert!(out.contains("Expected:"), "missing Expected label: {out}");
    assert!(
        out.contains("/home/bob/project-bar"),
        "missing workspace: {out}"
    );
    assert!(out.contains("Found:"), "missing Found label: {out}");
    assert!(
        out.contains("/home/alice/project-foo"),
        "missing found source: {out}"
    );
    assert!(out.contains("a1b2c3d4"), "missing hash: {out}");
    assert!(
        out.contains("dcx clean"),
        "missing dcx clean suggestion: {out}"
    );
}

#[test]
fn username_for_uid_returns_root_for_uid_zero() {
    // UID 0 is always "root" on Linux and macOS.
    let passwd = "root:x:0:0:root:/root:/bin/bash\ndaemon:x:1:1:daemon:/usr/sbin:/usr/sbin/nologin\n";
    let name = dcx::up::username_for_uid(passwd, 0);
    assert_eq!(name, "root", "UID 0 should resolve to 'root'");
}

#[test]
fn username_for_uid_returns_fallback_for_unknown_uid() {
    // UID 4_294_967_294 is highly unlikely to appear in /etc/passwd.
    let uid = 4_294_967_294u32;
    let passwd = "root:x:0:0:root:/root:/bin/bash\nnobody:x:65534:65534:nobody:/nonexistent:/usr/sbin/nologin\n";
    assert_eq!(dcx::up::username_for_uid(passwd, uid), format!("UID {uid}"));
}

#[test]
fn username_lookup_reads_third_field() {
    let passwd = "root:x:0:0:root:/root:/bin/bash\nalice:x:+1000:1000::/home/alice:/bin/sh\nbad:x:99999999999:1\n";
    assert_eq!(dcx::up::username_for_uid(passwd, 1000), "alice");
    assert_eq!(dcx::up::username_for_uid(passwd, 7), "UID 7");
    assert_eq!(dcx::text::parse_u32("4294967295"), Some(4294967295));
    assert_eq!(dcx::text::parse_u32("4294967296"), None);
    assert_eq!(dcx::text::parse_u32("+12"), Some(12));
    assert_eq!(dcx::text::parse_u32("+"), None);
    assert_eq!(dcx::text::parse_u32(" 1"), None);
}

#[test]
fn mounter_and_uid_helpers() {
    assert_eq!(dcx::up::mounter_args("/w", "/r/m"), vec!["--no-allow-other", "/w", "/r/m"]);
    let out = Ok(dcx::cmd::CaptureOutput { stdout: "1000\n".to_string(), stderr: String::new(), status: 0 });
    assert_eq!(dcx::up::uid_from_output(&out), Some(1000));
    assert!(dcx::engine::confirmed(" YES\n"));
    assert!(dcx::engine::confirmed("y"));
    assert!(!dcx::engine::confirmed("no"));
    assert!(!dcx::engine::confirmed(""));
}
