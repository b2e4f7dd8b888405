use vstd::prelude::*;

use crate::cmd::{concat, owned};
use crate::engine::{
    begin_of, engine_down, engine_down_text, fail, recursion_refused, recursion_text, Begin,
    Start,
};
use crate::exit_codes::{RUNTIME_ERROR, SUCCESS, USAGE_ERROR};
use crate::naming::{is_dcx_managed_path, is_managed, join_path, mount_name, mount_name_of, mount_point_of, relay_dir, relay_of};
use crate::text::{chars_of, has_prefix, slice, string_of};

verus! {

/// `path` with the home directory `home` written as `~`, comparing them as paths:
/// trailing slashes aside, and only where `home` is a whole leading part of `path`.
pub open spec fn tilde_of(path: Seq<char>, home: Seq<char>) -> Seq<char> {
    let p = crate::text::trim_slashes(path);
    let h = crate::text::trim_slashes(home);
    if p == h {
        "~"@
    } else if has_prefix(p, h + seq!['/']) {
        "~/"@ + p.subrange(h.len() as int + 1, p.len() as int)
    } else {
        path
    }
}

/// Abbreviate `path` with `~` where it lies under `home`.
pub fn tilde_path(path: &str, home: &str) -> (r: String)
    ensures
        r@ == tilde_of(path@, home@),
{
    let p = crate::text::trim_trailing_slashes(&chars_of(path));
    let h = crate::text::trim_trailing_slashes(&chars_of(home));
    if crate::mount_table::same_chars(&p, &h) {
        return owned("~");
    }
    let mut hs = slice(&h, 0, h.len());
    hs.push('/');
    proof {
        assert(hs@ =~= h@ + seq!['/']);
    }
    if !crate::text::starts_with(&p, &hs) {
        return owned(path);
    }
    let rest = slice(&p, hs.len(), p.len());
    concat("~/", string_of(&rest).as_str())
}

/// The orchestrator command that `up` delegates to, as shown to the user.
pub open spec fn up_command_of(mount_shown: Seq<char>, config: Option<Seq<char>>) -> Seq<char> {
    "devcontainer up --workspace-folder "@ + mount_shown + match config {
        Some(c) => " --config "@ + c,
        None => Seq::empty(),
    }
}

/// The `--dry-run` plan of `up`.
pub open spec fn dry_run_text(
    workspace: Seq<char>,
    mount_point: Seq<char>,
    home: Seq<char>,
    config: Option<Seq<char>>,
) -> Seq<char> {
    "Would mount: "@ + workspace + " \u{2192} "@ + tilde_of(mount_point, home) + "\nWould run: "@
        + up_command_of(tilde_of(mount_point, home), config)
}

/// The view of an optional string slice.
pub open spec fn opt_str_view(o: Option<&str>) -> Option<Seq<char>> {
    match o {
        Some(s) => Some(s@),
        None => None,
    }
}

/// Format the `--dry-run` plan of `up`: what would be mounted where, and what would run.
pub fn dry_run_plan(workspace: &str, mount_point: &str, home: &str, config: Option<&str>) -> (r:
    String)
    ensures
        r@ == dry_run_text(workspace@, mount_point@, home@, opt_str_view(config)),
{
    let shown = tilde_path(mount_point, home);
    let mut cmd = concat("devcontainer up --workspace-folder ", shown.as_str());
    if let Some(c) = config {
        cmd = concat(concat(cmd.as_str(), " --config ").as_str(), c);
    }
    let head = concat(concat("Would mount: ", workspace).as_str(), " \u{2192} ");
    let line1 = concat(head.as_str(), shown.as_str());
    let r = concat(concat(line1.as_str(), "\nWould run: ").as_str(), cmd.as_str());
    proof {
        match config {
            Some(c) => {
                assert(r@ =~= dry_run_text(workspace@, mount_point@, home@, opt_str_view(config)));
            },
            None => {
                assert(r@ =~= dry_run_text(workspace@, mount_point@, home@, opt_str_view(config)));
            },
        }
    }
    r
}

/// The collision report of `up`, three lines: the source expected at the mount point,
/// the source found there, and the hash both share.
pub open spec fn collision_text(workspace: Seq<char>, found: Seq<char>, hash: Seq<char>) -> Seq<
    char,
> {
    "\u{2717} Expected: "@ + workspace + "\n  Found: "@ + found
        + "\n  Hash collision: both hash to "@ + hash + ". Run `dcx clean` to reset and retry."@
}

/// Format the hash-collision error of `up`: expected source, found source and the hash,
/// one line each.
pub fn collision_error(workspace: &str, found_source: &str, hash: &str) -> (r: String)
    ensures
        r@ == collision_text(workspace@, found_source@, hash@),
{
    let a = concat("\u{2717} Expected: ", workspace);
    let b = concat(concat(a.as_str(), "\n  Found: ").as_str(), found_source);
    let c = concat(concat(b.as_str(), "\n  Hash collision: both hash to ").as_str(), hash);
    let r = concat(c.as_str(), ". Run `dcx clean` to reset and retry.");
    proof {
        assert(r@ =~= collision_text(workspace@, found_source@, hash@));
    }
    r
}

/// What `up` begins with, as `up_start` decides it.
pub open spec fn up_begin_of(
    available: bool,
    workspace: Result<Seq<char>, Seq<char>>,
    home: Seq<char>,
    config: Option<Seq<char>>,
    config_exists: bool,
    has_default_config: bool,
    dry_run: bool,
) -> Begin {
    if !available {
        Begin::Exit { code: RUNTIME_ERROR, message: engine_down_text(), to_stdout: false }
    } else {
        match workspace {
            Err(e) => Begin::Exit { code: USAGE_ERROR, message: e, to_stdout: false },
            Ok(w) => if config is Some && !config_exists {
                Begin::Exit {
                    code: USAGE_ERROR,
                    message: "Config file not found: "@ + config->Some_0,
                    to_stdout: false,
                }
            } else if is_managed(w, relay_of(home)) {
                Begin::Exit { code: USAGE_ERROR, message: recursion_text(), to_stdout: false }
            } else if config is None && !has_default_config {
                Begin::Exit {
                    code: USAGE_ERROR,
                    message: "No devcontainer configuration found in "@ + w + "."@,
                    to_stdout: false,
                }
            } else if dry_run {
                Begin::Exit {
                    code: SUCCESS,
                    message: dry_run_text(w, mount_point_of(relay_of(home), w), home, config),
                    to_stdout: true,
                }
            } else {
                Begin::Proceed {
                    name: mount_name_of(w),
                    mount_point: mount_point_of(relay_of(home), w),
                }
            },
        }
    }
}

/// The view of a resolved workspace, or of why it could not be resolved.
pub open spec fn resolved_view(w: &Result<String, String>) -> Result<Seq<char>, Seq<char>> {
    match w {
        Ok(p) => Ok(p@),
        Err(e) => Err(e@),
    }
}

/// The view of an optional string.
pub open spec fn opt_string_view(o: &Option<String>) -> Option<Seq<char>> {
    match o {
        Some(s) => Some(s@),
        None => None,
    }
}

/// Decide how `up` begins: the engine must be reachable, the workspace resolved, an
/// explicit configuration present, the workspace outside the relay's managed mounts, and
/// some configuration found. Under `--dry-run` the plan is printed and nothing changes.
pub fn up_start(
    available: bool,
    workspace: &Result<String, String>,
    home: &str,
    config: &Option<String>,
    config_exists: bool,
    has_default_config: bool,
    dry_run: bool,
) -> (r: Start)
    ensures
        begin_of(&r) == up_begin_of(
            available,
            resolved_view(workspace),
            home@,
            opt_string_view(config),
            config_exists,
            has_default_config,
            dry_run,
        ),
{
    if !available {
        return engine_down();
    }
    let w = match workspace {
        Err(e) => {
            return fail(USAGE_ERROR, e.as_str());
        },
        Ok(w) => w,
    };
    if let Some(c) = config {
        if !config_exists {
            return fail(USAGE_ERROR, concat("Config file not found: ", c.as_str()).as_str());
        }
    }
    let relay = relay_dir(home);
    if is_dcx_managed_path(w.as_str(), relay.as_str()) {
        return recursion_refused();
    }
    if config.is_none() && !has_default_config {
        let m = concat(concat("No devcontainer configuration found in ", w.as_str()).as_str(), ".");
        return fail(USAGE_ERROR, m.as_str());
    }
    let name = mount_name(w.as_str());
    let mount_point = join_path(relay.as_str(), name.as_str());
    if dry_run {
        let cfg: Option<&str> = match config {
            Some(c) => Some(c.as_str()),
            None => None,
        };
        let plan = dry_run_plan(w.as_str(), mount_point.as_str(), home, cfg);
        return Start::Exit { code: SUCCESS, message: plan, to_stdout: true };
    }
    Start::Proceed { name, mount_point }
}

/// What to do with the mount point, given what was observed of it.
#[derive(Debug)]
pub enum Reconcile {
    /// A healthy mount of this workspace is there already: use it.
    Reuse,
    /// A healthy mount of another source is there: report the collision.
    Collision(String),
    /// Mount afresh; first unmount a stale entry of the mount table when told so.
    Fresh { unmount_stale: bool },
}

/// Decide what to do with the mount point of `workspace`, from whether it is accessible
/// and which source the mount table lists for it.
pub fn reconcile(workspace: &str, accessible: bool, source: Option<&str>) -> (r: Reconcile)
    ensures
        match source {
            Some(s) => if !accessible {
                (r matches Reconcile::Fresh { unmount_stale } && unmount_stale)
            } else if s@ == workspace@ {
                r is Reuse
            } else {
                (r matches Reconcile::Collision(m) && m@ == collision_text(
                    workspace@,
                    s@,
                    crate::naming::path_hash(workspace@),
                ))
            },
            None => (r matches Reconcile::Fresh { unmount_stale } && !unmount_stale),
        },
{
    if accessible {
        match source {
            Some(s) => {
                if crate::mount_table::same_chars(&chars_of(s), &chars_of(workspace)) {
                    Reconcile::Reuse
                } else {
                    let hash = crate::naming::compute_hash(workspace);
                    Reconcile::Collision(collision_error(workspace, s, hash.as_str()))
                }
            },
            None => Reconcile::Fresh { unmount_stale: false },
        }
    } else {
        Reconcile::Fresh { unmount_stale: source.is_some() }
    }
}

/// A step of `up` after the mount point has been reconciled.
#[derive(Debug, Clone, Copy, PartialEq, Eq, Structural)]
pub enum UpStep {
    /// Unmount the stale entry at the mount point.
    UnmountStale,
    /// Create the mount point and bind-mount the workspace on it.
    Mount,
    /// Poll the interruption flag; success means it is not set.
    CheckInterrupt,
    /// Run the orchestrator's `up` on the mount point.
    Orchestrate,
    /// Tag the base image for later discovery; its failure is only reported.
    TagBase,
    /// Roll back: unmount the mount point; its failure is only reported.
    RollbackUnmount,
    /// Roll back: remove the mount point; its failure is only reported.
    RollbackRemove,
    /// Finished, with this exit code.
    Done(i32),
}

/// Where a run of `up` stands: the next step, and whether this run mounted afresh.
#[derive(Debug, Clone, Copy, PartialEq, Eq, Structural)]
pub struct UpRun {
    pub step: UpStep,
    pub mounted_fresh: bool,
}

/// The first step for a reconciliation.
pub open spec fn up_first(rec: &Reconcile) -> UpRun {
    match rec {
        Reconcile::Reuse => UpRun { step: UpStep::CheckInterrupt, mounted_fresh: false },
        Reconcile::Collision(_) => UpRun { step: UpStep::Done(RUNTIME_ERROR), mounted_fresh: false },
        Reconcile::Fresh { unmount_stale } => UpRun {
            step: if *unmount_stale {
                UpStep::UnmountStale
            } else {
                UpStep::Mount
            },
            mounted_fresh: false,
        },
    }
}

/// Where a run goes after a failure: roll back if this run mounted afresh, else stop.
pub open spec fn after_failure(mounted_fresh: bool) -> UpRun {
    if mounted_fresh {
        UpRun { step: UpStep::RollbackUnmount, mounted_fresh }
    } else {
        UpRun { step: UpStep::Done(RUNTIME_ERROR), mounted_fresh }
    }
}

/// The step after `run`, given whether its step succeeded.
pub open spec fn up_next(run: UpRun, ok: bool) -> UpRun {
    match run.step {
        UpStep::UnmountStale => if ok {
            UpRun { step: UpStep::Mount, ..run }
        } else {
            UpRun { step: UpStep::Done(RUNTIME_ERROR), ..run }
        },
        UpStep::Mount => if ok {
            UpRun { step: UpStep::CheckInterrupt, mounted_fresh: true }
        } else {
            UpRun { step: UpStep::Done(RUNTIME_ERROR), ..run }
        },
        UpStep::CheckInterrupt => if ok {
            UpRun { step: UpStep::Orchestrate, ..run }
        } else {
            after_failure(run.mounted_fresh)
        },
        UpStep::Orchestrate => if ok {
            UpRun { step: UpStep::TagBase, ..run }
        } else {
            after_failure(run.mounted_fresh)
        },
        UpStep::TagBase => UpRun { step: UpStep::Done(SUCCESS), ..run },
        UpStep::RollbackUnmount => UpRun { step: UpStep::RollbackRemove, ..run },
        UpStep::RollbackRemove => UpRun { step: UpStep::Done(RUNTIME_ERROR), ..run },
        UpStep::Done(c) => run,
    }
}

/// The first step of `up` once the mount point has been reconciled.
pub fn up_begin(rec: &Reconcile) -> (r: UpRun)
    ensures
        r == up_first(rec),
{
    match rec {
        Reconcile::Reuse => UpRun { step: UpStep::CheckInterrupt, mounted_fresh: false },
        Reconcile::Collision(_) => UpRun { step: UpStep::Done(RUNTIME_ERROR), mounted_fresh: false },
        Reconcile::Fresh { unmount_stale } => UpRun {
            step: if *unmount_stale {
                UpStep::UnmountStale
            } else {
                UpStep::Mount
            },
            mounted_fresh: false,
        },
    }
}

/// The step of `up` after `run`, given whether its step succeeded.
pub fn up_advance(run: UpRun, ok: bool) -> (r: UpRun)
    ensures
        r == up_next(run, ok),
{
    let fail_to = if run.mounted_fresh {
        UpRun { step: UpStep::RollbackUnmount, mounted_fresh: true }
    } else {
        UpRun { step: UpStep::Done(RUNTIME_ERROR), mounted_fresh: false }
    };
    match run.step {
        UpStep::UnmountStale => if ok {
            UpRun { step: UpStep::Mount, mounted_fresh: run.mounted_fresh }
        } else {
            UpRun { step: UpStep::Done(RUNTIME_ERROR), mounted_fresh: run.mounted_fresh }
        },
        UpStep::Mount => if ok {
            UpRun { step: UpStep::CheckInterrupt, mounted_fresh: true }
        } else {
            UpRun { step: UpStep::Done(RUNTIME_ERROR), mounted_fresh: run.mounted_fresh }
        },
        UpStep::CheckInterrupt => if ok {
            UpRun { step: UpStep::Orchestrate, mounted_fresh: run.mounted_fresh }
        } else {
            fail_to
        },
        UpStep::Orchestrate => if ok {
            UpRun { step: UpStep::TagBase, mounted_fresh: run.mounted_fresh }
        } else {
            fail_to
        },
        UpStep::TagBase => UpRun { step: UpStep::Done(SUCCESS), mounted_fresh: run.mounted_fresh },
        UpStep::RollbackUnmount => UpRun {
            step: UpStep::RollbackRemove,
            mounted_fresh: run.mounted_fresh,
        },
        UpStep::RollbackRemove => UpRun {
            step: UpStep::Done(RUNTIME_ERROR),
            mounted_fresh: run.mounted_fresh,
        },
        UpStep::Done(c) => run,
    }
}

/// What holds of every state a run of `up` reaches: once it has mounted afresh, it does not
/// go back to mounting.
pub open spec fn up_inv(run: UpRun) -> bool {
    run.mounted_fresh ==> !(run.step == UpStep::UnmountStale || run.step == UpStep::Mount)
}

/// Every run starts in a state of `up_inv`, and each step keeps it.
pub proof fn lemma_up_inv(rec: &Reconcile, run: UpRun, ok: bool)
    ensures
        up_inv(up_first(rec)),
        up_inv(run) ==> up_inv(up_next(run, ok)),
{
}

/// Once `up` has mounted afresh, a failed step or a set interruption flag leads to the
/// unmount and the removal of the mount point, whatever they report, and then to
/// `RUNTIME_ERROR`; and no run that mounted afresh ends with an error any other way.
pub proof fn lemma_up_rollback(run: UpRun, ok: bool, ok_unmount: bool, ok_remove: bool)
    requires
        run.mounted_fresh,
        up_inv(run),
    ensures
        (run.step == UpStep::CheckInterrupt || run.step == UpStep::Orchestrate) ==> {
            let r1 = up_next(run, false);
            let r2 = up_next(r1, ok_unmount);
            let r3 = up_next(r2, ok_remove);
            &&& r1.step == UpStep::RollbackUnmount
            &&& r2.step == UpStep::RollbackRemove
            &&& r3.step == UpStep::Done(RUNTIME_ERROR)
        },
        up_next(run, ok).mounted_fresh,
        (!(run.step is Done) && (up_next(run, ok).step matches UpStep::Done(c) && c != SUCCESS))
            ==> run.step == UpStep::RollbackRemove,
{
}

/// Under `--dry-run`, `up` never proceeds to a step that changes anything: it ends at once.
pub proof fn lemma_up_dry_run(
    available: bool,
    workspace: Result<Seq<char>, Seq<char>>,
    home: Seq<char>,
    config: Option<Seq<char>>,
    config_exists: bool,
    has_default_config: bool,
)
    ensures
        up_begin_of(available, workspace, home, config, config_exists, has_default_config, true) is Exit,
{
}

/// The arguments of the bind-mount provider that mount `workspace` on `mount_point`.
pub fn mounter_args(workspace: &str, mount_point: &str) -> (r: Vec<String>)
    ensures
        crate::cmd::str_views(r@) == seq!["--no-allow-other"@, workspace@, mount_point@],
{
    let r = vec![owned("--no-allow-other"), owned(workspace), owned(mount_point)];
    proof {
        assert(crate::cmd::str_views(r@) =~= seq!["--no-allow-other"@, workspace@, mount_point@]);
    }
    r
}

/// The `k`-th `:`-separated field of a line of the password file, or nothing.
pub open spec fn passwd_field(line: Seq<char>, k: int) -> Seq<char> {
    if crate::text::split_on(line, ':').len() > k {
        crate::text::split_on(line, ':')[k]
    } else {
        Seq::empty()
    }
}

/// The name on the first line of `ls` whose user ID field reads as `uid`.
pub open spec fn user_of(ls: Seq<Seq<char>>, uid: u32) -> Option<Seq<char>>
    decreases ls.len(),
{
    if ls.len() == 0 {
        None
    } else if crate::text::parsed_u32(passwd_field(ls[0], 2)) == Some(uid) {
        Some(passwd_field(ls[0], 0))
    } else {
        user_of(ls.subrange(1, ls.len() as int), uid)
    }
}

/// The user name of `uid` in the password file `passwd`, or `UID <uid>`.
pub open spec fn username_text(passwd: Seq<char>, uid: u32) -> Seq<char> {
    match user_of(crate::text::lines(passwd), uid) {
        Some(n) => n,
        None => "UID "@ + crate::text::decimal(uid as nat),
    }
}

/// Look up the user name of `uid` in the text of the password file, falling back to
/// `UID <uid>`.
pub fn username_for_uid(passwd: &str, uid: u32) -> (r: String)
    ensures
        r@ == username_text(passwd@, uid),
{
    let ls = crate::text::split_lines(&chars_of(passwd));
    let ghost all = crate::text::views(ls@);
    let mut i: usize = 0;
    proof {
        assert(all.subrange(0, all.len() as int) =~= all);
    }
    while i < ls.len()
        invariant
            i <= ls@.len() == all.len(),
            all == crate::text::views(ls@),
            all == crate::text::lines(passwd@),
            user_of(all, uid) == user_of(all.subrange(i as int, all.len() as int), uid),
        decreases ls@.len() - i,
    {
        let ghost rest = all.subrange(i as int, all.len() as int);
        proof {
            assert(rest.subrange(1, rest.len() as int) =~= all.subrange(i + 1, all.len() as int));
            assert(rest[0] == ls@[i as int]@);
        }
        let fields = crate::text::split_chars(&ls[i], ':');
        let name = if fields.len() > 0 {
            proof {
                assert(crate::text::views(fields@)[0] == fields@[0]@);
            }
            string_of(&fields[0])
        } else {
            owned("")
        };
        let id_field = if fields.len() > 2 {
            proof {
                assert(crate::text::views(fields@)[2] == fields@[2]@);
            }
            string_of(&fields[2])
        } else {
            owned("")
        };
        proof {
            reveal_strlit("");
        }
        if crate::text::parse_u32(id_field.as_str()) == Some(uid) {
            return name;
        }
        i = i + 1;
    }
    let mut out = chars_of("UID ");
    crate::text::push_all(&mut out, &crate::text::decimal_of(uid as usize));
    string_of(&out)
}

/// The current user ID that `id -u` printed, if it printed one.
pub fn uid_from_output(out: &crate::cmd::Captured) -> (r: Option<u32>)
    ensures
        r == match out {
            Ok(o) => crate::text::parsed_u32(crate::text::trim(o.stdout@)),
            Err(_) => None::<u32>,
        },
{
    match out {
        Ok(o) => {
            let t = crate::text::trim_chars(&chars_of(o.stdout.as_str()));
            crate::text::parse_u32(string_of(&t).as_str())
        },
        Err(_) => None,
    }
}

/// For a home directory without a trailing `/`, the `--dry-run` plan of `up` shows the
/// mount point as `~/.colima-mounts/<mount name>`.
pub proof fn lemma_dry_run_shows_tilde(w: Seq<char>, home: Seq<char>)
    requires
        home.len() > 0,
        home.last() != '/',
    ensures
        tilde_of(mount_point_of(relay_of(home), w), home) == "~/.colima-mounts/"@
            + mount_name_of(w),
{
    reveal_strlit(".colima-mounts");
    reveal_strlit("~/.colima-mounts/");
    reveal_strlit("dcx-");
    reveal_strlit("~/");
    crate::naming::lemma_mount_name_shape(w);
    crate::naming::lemma_hash_width(w);
    let n = mount_name_of(w);
    let relay = relay_of(home);
    assert(relay == home + seq!['/'] + ".colima-mounts"@);
    assert(n[0] == 'd') by {
        assert(n.subrange(0, 4)[0] == n[0]);
    }
    let m = mount_point_of(relay, w);
    assert(m == relay + seq!['/'] + n);
    assert(n.last() == crate::naming::path_hash(w)[7]) by {
        assert(n.subrange(n.len() - 8, n.len() as int)[7] == n.last());
    }
    assert(m.last() == n.last());
    assert(crate::text::trim_slashes(m) == m);
    assert(crate::text::trim_slashes(home) == home);
    assert(m != home);
    let rest = m.subrange(home.len() as int + 1, m.len() as int);
    assert(m.subrange(0, home.len() as int + 1) =~= home + seq!['/']);
    assert(rest =~= ".colima-mounts"@ + seq!['/'] + n);
    assert("~/"@ + rest =~= "~/.colima-mounts/"@ + n);
}

} // verus!
