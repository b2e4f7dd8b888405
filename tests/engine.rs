use dcx::clean::{
    clean_ops, clean_start, entry_outcome, final_sweeps, is_orphan_mount, needs_confirmation, CleanOp,
    CleanStart, CleanTally, Sweep,
};
use dcx::cmd::CaptureOutput;
use dcx::down::{down_advance, down_begin, down_start, DownStep};
use dcx::engine::Start;
use dcx::exec::exec_start;
use dcx::exit_codes::{RUNTIME_ERROR, SUCCESS, USAGE_ERROR};
use dcx::mount_table::MountEntry;
use dcx::naming::{mount_name, mount_point};
use dcx::relay::managed_entries;
use dcx::up::{reconcile, up_advance, up_begin, up_start, Reconcile, UpRun, UpStep};

const HOME: &str = "/home/user";
const RELAY: &str = "/home/user/.colima-mounts";

fn entry(source: &str, target: &str) -> MountEntry {
    MountEntry { source: source.to_string(), target: target.to_string() }
}

fn exit_of(s: &Start) -> (i32, String, bool) {
    match s {
        Start::Exit { code, message, to_stdout } => (*code, message.clone(), *to_stdout),
        Start::Proceed { .. } => panic!("expected an exit, got {s:?}"),
    }
}

fn is_hex8(s: &str) -> bool {
    s.len() == 8 && s.chars().all(|c| c.is_ascii_digit() || ('a'..='f').contains(&c))
}

#[test]
fn mount_name_prefix_and_hash_scenario() {
    let a = mount_name("/home/user/myproject");
    let b = mount_name("/home/user/myproject");
    assert!(a.starts_with("dcx-myproject-"), "got: {a}");
    assert!(is_hex8(&a["dcx-myproject-".len()..]), "got: {a}");
    assert_eq!(a, b);
}

#[test]
fn mount_name_dot_becomes_dash_scenario() {
    let n = mount_name("/home/user/my.project");
    assert!(n.starts_with("dcx-my-project-"), "got: {n}");
    assert!(is_hex8(&n["dcx-my-project-".len()..]), "got: {n}");
}

#[test]
fn mount_name_segment_bound_on_odd_names() {
    for p in ["/x/ünïcödé name!", "/x/", "/", "/x/a_b.c d", "/x/0123456789012345678901234567890123456789"] {
        let n = mount_name(p);
        let seg = &n[4..n.len() - 9];
        assert!(seg.len() <= 30, "got: {n}");
        assert!(seg.chars().all(|c| c.is_ascii_alphanumeric() || c == '-'), "got: {n}");
        assert!(is_hex8(&n[n.len() - 8..]), "got: {n}");
    }
}

#[test]
fn mount_point_is_relay_joined_with_name() {
    assert_eq!(
        mount_point(RELAY, "/home/user/myproject"),
        "/home/user/.colima-mounts/dcx-myproject-f227ecb4"
    );
}

#[test]
fn up_dry_run_prints_two_lines_scenario() {
    let w = Ok("/home/user/myproject".to_string());
    let s = up_start(true, &w, HOME, &None, false, true, true);
    let (code, msg, to_stdout) = exit_of(&s);
    assert_eq!(code, SUCCESS);
    assert!(to_stdout);
    let lines: Vec<&str> = msg.lines().collect();
    assert_eq!(
        lines,
        vec![
            "Would mount: /home/user/myproject \u{2192} ~/.colima-mounts/dcx-myproject-f227ecb4",
            "Would run: devcontainer up --workspace-folder ~/.colima-mounts/dcx-myproject-f227ecb4",
        ]
    );
}

#[test]
fn up_proceeds_with_mount_point_without_dry_run() {
    let w = Ok("/home/user/myproject".to_string());
    match up_start(true, &w, HOME, &None, false, true, false) {
        Start::Proceed { name, mount_point } => {
            assert_eq!(name, "dcx-myproject-f227ecb4");
            assert_eq!(mount_point, "/home/user/.colima-mounts/dcx-myproject-f227ecb4");
        },
        other => panic!("expected to proceed, got {other:?}"),
    }
}

#[test]
fn up_refuses_missing_config_and_engine_down() {
    let w = Ok("/home/user/myproject".to_string());
    let (code, msg, _) = exit_of(&up_start(true, &w, HOME, &None, false, false, false));
    assert_eq!(code, USAGE_ERROR);
    assert_eq!(msg, "No devcontainer configuration found in /home/user/myproject.");
    let cfg = Some("/tmp/nowhere.json".to_string());
    let (code, msg, _) = exit_of(&up_start(true, &w, HOME, &cfg, false, true, false));
    assert_eq!(code, USAGE_ERROR);
    assert_eq!(msg, "Config file not found: /tmp/nowhere.json");
    let (code, msg, _) = exit_of(&up_start(false, &w, HOME, &None, false, true, false));
    assert_eq!(code, RUNTIME_ERROR);
    assert_eq!(msg, "Docker is not available. Is Colima running?");
    let missing: Result<String, String> = Err("Workspace path does not exist: /nope".to_string());
    let (code, msg, _) = exit_of(&up_start(true, &missing, HOME, &None, false, true, false));
    assert_eq!(code, USAGE_ERROR);
    assert_eq!(msg, "Workspace path does not exist: /nope");
}

#[test]
fn recursion_guard_refuses_every_engine() {
    let w = Ok("/home/user/.colima-mounts/dcx-foo-a1b2c3d4/sub".to_string());
    let (code, _, _) = exit_of(&up_start(true, &w, HOME, &None, false, true, false));
    assert_eq!(code, USAGE_ERROR);
    let (code, _, _) = exit_of(&down_start(true, &w, HOME, &[]));
    assert_eq!(code, USAGE_ERROR);
    let (code, _, _) = exit_of(&exec_start(true, &w, HOME, &[], true, true));
    assert_eq!(code, USAGE_ERROR);
    for all in [false, true] {
        for dry in [false, true] {
            match clean_start(true, all, dry, &w, HOME) {
                CleanStart::Exit { code, .. } => assert_eq!(code, USAGE_ERROR),
                other => panic!("expected an exit, got {other:?}"),
            }
        }
    }
    let gone: Result<String, String> = Err("gone".to_string());
    assert!(matches!(clean_start(true, true, false, &gone, HOME), CleanStart::Execute { mount_point: None }));
}

#[test]
fn collision_reports_expected_found_and_hash_scenario() {
    let w = "/home/user/myproject";
    match reconcile(w, true, Some("/home/other/project")) {
        Reconcile::Collision(msg) => {
            assert!(msg.contains("Expected: /home/user/myproject"), "got: {msg}");
            assert!(msg.contains("Found: /home/other/project"), "got: {msg}");
            assert_eq!(msg.lines().count(), 3, "got: {msg}");
            assert!(msg.contains("f227ecb4"), "got: {msg}");
            let run = up_begin(&Reconcile::Collision(msg));
            assert_eq!(run.step, UpStep::Done(RUNTIME_ERROR));
        },
        other => panic!("expected a collision, got {other:?}"),
    }
}

#[test]
fn reconcile_cases() {
    let w = "/home/user/myproject";
    assert!(matches!(reconcile(w, true, Some(w)), Reconcile::Reuse));
    assert!(matches!(reconcile(w, true, None), Reconcile::Fresh { unmount_stale: false }));
    assert!(matches!(reconcile(w, false, Some(w)), Reconcile::Fresh { unmount_stale: true }));
    assert!(matches!(reconcile(w, false, None), Reconcile::Fresh { unmount_stale: false }));
}

fn run_up(rec: Reconcile, results: &[bool]) -> Vec<UpStep> {
    let mut run = up_begin(&rec);
    let mut steps = vec![run.step];
    for ok in results {
        run = up_advance(run, *ok);
        steps.push(run.step);
    }
    steps
}

#[test]
fn up_rolls_back_when_orchestrator_fails_after_fresh_mount() {
    let steps = run_up(Reconcile::Fresh { unmount_stale: false }, &[true, true, false, false, false]);
    assert_eq!(
        steps,
        vec![
            UpStep::Mount,
            UpStep::CheckInterrupt,
            UpStep::Orchestrate,
            UpStep::RollbackUnmount,
            UpStep::RollbackRemove,
            UpStep::Done(RUNTIME_ERROR),
        ]
    );
}

#[test]
fn up_rolls_back_when_interrupted_after_fresh_mount() {
    let steps = run_up(Reconcile::Fresh { unmount_stale: true }, &[true, true, false, true, true]);
    assert_eq!(
        steps,
        vec![
            UpStep::UnmountStale,
            UpStep::Mount,
            UpStep::CheckInterrupt,
            UpStep::RollbackUnmount,
            UpStep::RollbackRemove,
            UpStep::Done(RUNTIME_ERROR),
        ]
    );
}

#[test]
fn up_reused_mount_is_not_rolled_back() {
    let steps = run_up(Reconcile::Reuse, &[true, false]);
    assert_eq!(steps, vec![UpStep::CheckInterrupt, UpStep::Orchestrate, UpStep::Done(RUNTIME_ERROR)]);
}

#[test]
fn up_success_tags_then_finishes() {
    let steps = run_up(Reconcile::Fresh { unmount_stale: false }, &[true, true, true, false]);
    assert_eq!(
        steps,
        vec![
            UpStep::Mount,
            UpStep::CheckInterrupt,
            UpStep::Orchestrate,
            UpStep::TagBase,
            UpStep::Done(SUCCESS),
        ]
    );
    let run = UpRun { step: UpStep::Mount, mounted_fresh: false };
    assert_eq!(up_advance(run, false).step, UpStep::Done(RUNTIME_ERROR));
}

#[test]
fn down_without_mount_has_nothing_to_do_scenario() {
    let w = Ok("/home/user/myproject".to_string());
    let table = vec![entry("/home/user/other", "/home/user/.colima-mounts/dcx-other-00000000")];
    let (code, msg, to_stdout) = exit_of(&down_start(true, &w, HOME, &table));
    assert_eq!(code, SUCCESS);
    assert!(to_stdout);
    assert_eq!(msg, "No mount found for /home/user/myproject. Nothing to do.");
}

#[test]
fn down_twice_second_run_has_nothing_to_do() {
    let w = Ok("/home/user/myproject".to_string());
    let mp = "/home/user/.colima-mounts/dcx-myproject-f227ecb4";
    let table = vec![entry("/home/user/myproject", mp)];
    assert!(matches!(down_start(true, &w, HOME, &table), Start::Proceed { .. }));
    let mut run = down_begin();
    let mut steps = vec![run.step];
    for ok in [true, true, true, true] {
        run = down_advance(run, ok);
        steps.push(run.step);
    }
    assert_eq!(
        steps,
        vec![DownStep::Stop, DownStep::CheckInterrupt, DownStep::Unmount, DownStep::RemoveDir, DownStep::Done(SUCCESS)]
    );
    // After the unmount the mount table no longer lists the mount point.
    let (code, msg, _) = exit_of(&down_start(true, &w, HOME, &[]));
    assert_eq!(code, SUCCESS);
    assert_eq!(msg, "No mount found for /home/user/myproject. Nothing to do.");
}

#[test]
fn down_interrupted_still_unmounts_then_fails() {
    let mut run = down_begin();
    run = down_advance(run, true);
    run = down_advance(run, false);
    assert_eq!(run.step, DownStep::Unmount);
    run = down_advance(run, true);
    assert_eq!(run.step, DownStep::RemoveDir);
    run = down_advance(run, true);
    assert_eq!(run.step, DownStep::Done(RUNTIME_ERROR));
}

#[test]
fn down_missing_workspace_is_usage_error() {
    let w: Result<String, String> = Err("gone".to_string());
    let (code, msg, _) = exit_of(&down_start(true, &w, HOME, &[]));
    assert_eq!(code, USAGE_ERROR);
    assert_eq!(msg, "Workspace directory does not exist. Use `dcx clean` to remove stale mounts.");
}

#[test]
fn exec_start_errors() {
    let w = Ok("/home/user/myproject".to_string());
    let mp = "/home/user/.colima-mounts/dcx-myproject-f227ecb4";
    let (code, msg, _) = exit_of(&exec_start(true, &w, HOME, &[], false, false));
    assert_eq!(code, RUNTIME_ERROR);
    assert_eq!(msg, "No mount found for /home/user/myproject. Run `dcx up` first.");
    let (_, msg, _) = exit_of(&exec_start(true, &w, HOME, &[], true, false));
    assert_eq!(msg, "Mount is stale. Run `dcx up` to remount.");
    let table = vec![entry("/home/user/myproject", mp)];
    let (_, msg, _) = exit_of(&exec_start(true, &w, HOME, &table, false, true));
    assert_eq!(msg, "Mount is stale. Run `dcx up` to remount.");
    let (_, msg, _) = exit_of(&exec_start(true, &w, HOME, &table, true, false));
    assert_eq!(msg, "No running devcontainer found for this workspace. Run `dcx up` first.");
    assert!(matches!(exec_start(true, &w, HOME, &table, true, true), Start::Proceed { .. }));
}

#[test]
fn clean_scans_only_managed_entries_in_order_scenario() {
    let names = vec!["dcx-a-aaaaaaaa".to_string(), "foo".to_string(), "dcx-b-bbbbbbbb".to_string()];
    assert_eq!(managed_entries(&names), vec!["dcx-a-aaaaaaaa", "dcx-b-bbbbbbbb"]);
    let shuffled = vec![
        "dcx-b-bbbbbbbb".to_string(),
        ".DS_Store".to_string(),
        "dcx-a-aaaaaaaa".to_string(),
        "dcx-".to_string(),
    ];
    assert_eq!(managed_entries(&shuffled), vec!["dcx-", "dcx-a-aaaaaaaa", "dcx-b-bbbbbbbb"]);
    assert!(managed_entries(&vec![]).is_empty());
}

#[test]
fn clean_dry_run_only_previews() {
    let w = Ok("/home/user/myproject".to_string());
    assert!(matches!(clean_start(true, false, true, &w, HOME), CleanStart::Preview { mount_point: Some(_) }));
    assert!(matches!(clean_start(true, true, true, &w, HOME), CleanStart::Preview { mount_point: None }));
    assert!(matches!(clean_start(true, true, false, &w, HOME), CleanStart::Execute { mount_point: None }));
    let missing: Result<String, String> = Err("x".to_string());
    match clean_start(true, false, false, &missing, HOME) {
        CleanStart::Exit { code, message } => {
            assert_eq!(code, USAGE_ERROR);
            assert_eq!(message, "Workspace directory does not exist.");
        },
        other => panic!("expected an exit, got {other:?}"),
    }
}

fn has_purge_op(ops: &[CleanOp]) -> bool {
    ops.iter().any(|o| matches!(o, CleanOp::RemoveBaseTag(_) | CleanOp::RemoveVolume(_)))
}

#[test]
fn clean_without_purge_keeps_tags_and_volumes() {
    let vols = vec!["dcx-cache".to_string()];
    let ops = clean_ops("dcx-p-12345678", &Some("abc".to_string()), false, &vols, true, true);
    assert!(!has_purge_op(&ops));
    assert_eq!(ops.len(), 6);
    assert_eq!(final_sweeps(false), vec![Sweep::OrphanContainers, Sweep::OrphanImages]);
    let ops = clean_ops("dcx-p-12345678", &Some("abc".to_string()), true, &vols, true, true);
    assert!(has_purge_op(&ops));
    assert_eq!(ops.len(), 8);
    assert!(matches!(&ops[0], CleanOp::StopContainer));
    assert!(matches!(&ops[1], CleanOp::ResolveRuntimeImage(id) if id == "abc"));
    assert!(matches!(&ops[2], CleanOp::RemoveContainer(id) if id == "abc"));
    assert!(matches!(&ops[3], CleanOp::RemoveRuntimeImage));
    assert!(matches!(&ops[4], CleanOp::RemoveBaseTag(n) if n == "dcx-p-12345678"));
    assert!(matches!(&ops[5], CleanOp::RemoveVolume(v) if v == "dcx-cache"));
    assert!(matches!(&ops[6], CleanOp::Unmount));
    assert!(matches!(&ops[7], CleanOp::RemoveDir));
    assert_eq!(final_sweeps(true).len(), 5);
}

#[test]
fn clean_continues_past_a_failing_middle_entry() {
    let ops = clean_ops("dcx-b-bbbbbbbb", &None, false, &vec![], true, true);
    let results: Vec<Result<(), String>> = vec![Ok(()), Err("fusermount failed (exit 1): busy".to_string())];
    let middle = entry_outcome(&ops, &results, "orphaned", false);
    assert_eq!(middle, Err("fusermount failed (exit 1): busy".to_string()));
    let ok_ops = clean_ops("dcx-a-aaaaaaaa", &None, false, &vec![], false, true);
    let first = entry_outcome(&ok_ops, &vec![Ok(()), Ok(())], "empty dir", false);
    assert_eq!(first, Ok(("empty dir".to_string(), "removed".to_string())));

    let mut tally = CleanTally::new();
    assert!(tally.record("/r/dcx-a-aaaaaaaa", "dcx-a-aaaaaaaa", first.clone(), false));
    assert!(tally.record("/r/dcx-b-bbbbbbbb", "dcx-b-bbbbbbbb", middle, false));
    assert!(tally.record("/r/dcx-c-cccccccc", "dcx-c-cccccccc", first, false));
    assert_eq!(tally.processed, 3);
    assert_eq!(tally.cleaned.len(), 2);
    assert_eq!(tally.failures, vec!["/r/dcx-b-bbbbbbbb: fusermount failed (exit 1): busy"]);
    assert_eq!(tally.exit_code(), RUNTIME_ERROR);
}

#[test]
fn clean_stops_after_interrupted_entry_and_notes_do_not_fail() {
    let mut tally = CleanTally::new();
    assert!(!tally.record("/r/dcx-a", "dcx-a", Ok(("stale".to_string(), "removed".to_string())), true));
    assert_eq!(tally.exit_code(), SUCCESS);
    let ops = clean_ops("dcx-p", &None, true, &vec!["dcx-v".to_string()], false, true);
    let results = vec![Ok(()), Err("no tag".to_string()), Err("in use".to_string()), Ok(())];
    assert_eq!(
        entry_outcome(&ops, &results, "empty dir", false),
        Ok(("empty dir".to_string(), "removed".to_string()))
    );
}

#[test]
fn stopping_without_running_container_runs_nothing() {
    assert!(dcx::docker::stop_container_args(&None).is_none());
    let args = dcx::docker::stop_container_args(&Some("abc".to_string())).unwrap();
    assert_eq!(args, vec!["stop", "abc"]);
    assert_eq!(dcx::docker::stop_container(&None, &None), Ok(()));
    let ok = Ok(CaptureOutput { stdout: String::new(), stderr: String::new(), status: 0 });
    assert_eq!(dcx::docker::stop_container(&Some("abc".to_string()), &Some(ok)), Ok(()));
    let busy = Ok(CaptureOutput { stdout: String::new(), stderr: " busy\n".to_string(), status: 1 });
    assert_eq!(
        dcx::docker::stop_container(&Some("abc".to_string()), &Some(busy)),
        Err("Failed to stop container: busy".to_string())
    );
}

#[test]
fn orphan_mounts_and_confirmation() {
    assert!(is_orphan_mount("/r/dcx-b", "/r/dcx-a", true, true, false));
    assert!(!is_orphan_mount("/r/dcx-a", "/r/dcx-a", true, true, false));
    assert!(!is_orphan_mount("/r/dcx-b", "/r/dcx-a", true, false, false));
    assert!(!is_orphan_mount("/r/dcx-b", "/r/dcx-a", true, true, true));
    assert!(!is_orphan_mount("/r/dcx-b", "/r/dcx-a", false, true, false));
    assert!(needs_confirmation(2, false));
    assert!(!needs_confirmation(2, true));
    assert!(!needs_confirmation(0, false));
}

#[test]
fn tilde_compares_whole_components() {
    assert_eq!(dcx::up::tilde_path("/home/user/", "/home/user"), "~");
    assert_eq!(dcx::up::tilde_path("/home/user", "/home/user/"), "~");
    assert_eq!(dcx::up::tilde_path("/home/user/a/", "/home/user/"), "~/a");
    assert_eq!(dcx::up::tilde_path("/home/username", "/home/user"), "/home/username");
}

#[test]
fn relay_scan_keeps_each_name_once() {
    let names = vec!["dcx-b".to_string(), "dcx-a".to_string(), "x".to_string()];
    assert_eq!(managed_entries(&names).len(), 2);
}

#[test]
fn sweep_selections() {
    let out = |s: &str, st: i32| -> dcx::cmd::Captured {
        Ok(CaptureOutput { stdout: s.to_string(), stderr: String::new(), status: st })
    };
    let cands = vec!["vsc-a".to_string(), "vsc-b".to_string(), "vsc-c".to_string()];
    let users = vec![out("", 0), out("", 0), out("abc\n", 0)];
    assert_eq!(
        dcx::docker::build_images_to_remove(&cands, &vec![true, false, false], &users),
        vec!["vsc-b"]
    );
    assert_eq!(dcx::docker::runtime_images_to_remove(&cands, &users), vec!["vsc-a", "vsc-b"]);
    let labels = vec![out("/r/dcx-a\n", 0), out("<no value>\n", 0), Err("x".to_string())];
    assert_eq!(dcx::docker::containers_to_remove(&cands, &labels), vec!["vsc-a"]);
    assert_eq!(dcx::docker::count_succeeded(&vec![out("", 0), out("", 1), Err("x".to_string())]), 1);
}

#[test]
fn clean_current_finish() {
    let f = dcx::clean::current_finish("/w", 0, &vec![]);
    assert_eq!((f.code, f.stdout.as_deref(), f.done), (SUCCESS, Some("Nothing to clean for /w."), false));
    let f = dcx::clean::current_finish("/w", 1, &vec![]);
    assert!(f.done && f.code == SUCCESS);
    let f = dcx::clean::current_finish("/w", 1, &vec!["boom".to_string()]);
    assert_eq!((f.code, f.stderr.as_deref()), (RUNTIME_ERROR, Some("Error: boom")));
    assert!(dcx::clean::cleans_current(false, true));
    assert!(!dcx::clean::cleans_current(false, false));
}
