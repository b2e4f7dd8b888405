use vstd::prelude::*;

use crate::cmd::concat;
use crate::engine::{
    begin_of, engine_down, engine_down_text, fail, recursion_refused, recursion_text, Begin,
    Start,
};
use crate::exit_codes::{RUNTIME_ERROR, SUCCESS, USAGE_ERROR};
use crate::mount_table::{entry_views, find_mount_source, source_at, MountEntry};
use crate::naming::{
    is_dcx_managed_path, is_managed, join_path, mount_name, mount_name_of, mount_point_of,
    relay_dir, relay_of,
};
use crate::up::resolved_view;

verus! {

/// The message of `down` when the workspace has no mount.
pub open spec fn nothing_to_do_text(workspace: Seq<char>) -> Seq<char> {
    "No mount found for "@ + workspace + ". Nothing to do."@
}

/// The message of `down` when the workspace has no mount: there is nothing to do.
pub fn nothing_to_do(workspace: &str) -> (r: String)
    ensures
        r@ == nothing_to_do_text(workspace@),
{
    concat(concat("No mount found for ", workspace).as_str(), ". Nothing to do.")
}

/// The error of `down` when the workspace directory no longer exists.
pub fn workspace_missing_error() -> (r: &'static str)
    ensures
        r@ == workspace_missing_text(),
{
    "Workspace directory does not exist. Use `dcx clean` to remove stale mounts."
}

/// The text of `workspace_missing_error`.
pub open spec fn workspace_missing_text() -> Seq<char> {
    "Workspace directory does not exist. Use `dcx clean` to remove stale mounts."@
}

/// What `down` begins with, as `down_start` decides it.
pub open spec fn down_begin_of(
    available: bool,
    workspace: Result<Seq<char>, Seq<char>>,
    home: Seq<char>,
    table: Seq<(Seq<char>, Seq<char>)>,
) -> Begin {
    if !available {
        Begin::Exit { code: RUNTIME_ERROR, message: engine_down_text(), to_stdout: false }
    } else {
        match workspace {
            Err(_) => Begin::Exit {
                code: USAGE_ERROR,
                message: workspace_missing_text(),
                to_stdout: false,
            },
            Ok(w) => if is_managed(w, relay_of(home)) {
                Begin::Exit { code: USAGE_ERROR, message: recursion_text(), to_stdout: false }
            } else if source_at(table, mount_point_of(relay_of(home), w)) is None {
                Begin::Exit { code: SUCCESS, message: nothing_to_do_text(w), to_stdout: true }
            } else {
                Begin::Proceed {
                    name: mount_name_of(w),
                    mount_point: mount_point_of(relay_of(home), w),
                }
            },
        }
    }
}

/// Decide how `down` begins: the engine must be reachable, the workspace resolved and
/// outside the managed mounts; a mount point absent from the mount table leaves nothing
/// to do.
pub fn down_start(
    available: bool,
    workspace: &Result<String, String>,
    home: &str,
    table: &[MountEntry],
) -> (r: Start)
    ensures
        begin_of(&r) == down_begin_of(available, resolved_view(workspace), home@, entry_views(table@)),
{
    if !available {
        return engine_down();
    }
    let w = match workspace {
        Err(_) => {
            return fail(USAGE_ERROR, workspace_missing_error());
        },
        Ok(w) => w,
    };
    let relay = relay_dir(home);
    if is_dcx_managed_path(w.as_str(), relay.as_str()) {
        return recursion_refused();
    }
    let name = mount_name(w.as_str());
    let mount_point = join_path(relay.as_str(), name.as_str());
    if find_mount_source(table, mount_point.as_str()).is_none() {
        return Start::Exit { code: SUCCESS, message: nothing_to_do(w.as_str()), to_stdout: true };
    }
    Start::Proceed { name, mount_point }
}

/// A step of `down` once the mount point is known to be mounted.
#[derive(Debug, Clone, Copy, PartialEq, Eq, Structural)]
pub enum DownStep {
    /// Stop the workspace's container (nothing to do when none runs).
    Stop,
    /// Poll the interruption flag; success means it is not set. Either way the
    /// unmount goes on.
    CheckInterrupt,
    /// Unmount the mount point.
    Unmount,
    /// Remove the mount point.
    RemoveDir,
    /// Finished, with this exit code.
    Done(i32),
}

/// Where a run of `down` stands: the next step, and whether an interruption was seen.
#[derive(Debug, Clone, Copy, PartialEq, Eq, Structural)]
pub struct DownRun {
    pub step: DownStep,
    pub interrupted: bool,
}

/// The step after `run`, given whether its step succeeded.
pub open spec fn down_next(run: DownRun, ok: bool) -> DownRun {
    match run.step {
        DownStep::Stop => if ok {
            DownRun { step: DownStep::CheckInterrupt, ..run }
        } else {
            DownRun { step: DownStep::Done(RUNTIME_ERROR), ..run }
        },
        DownStep::CheckInterrupt => DownRun { step: DownStep::Unmount, interrupted: !ok },
        DownStep::Unmount => if ok {
            DownRun { step: DownStep::RemoveDir, ..run }
        } else {
            DownRun { step: DownStep::Done(RUNTIME_ERROR), ..run }
        },
        DownStep::RemoveDir => if ok && !run.interrupted {
            DownRun { step: DownStep::Done(SUCCESS), ..run }
        } else {
            DownRun { step: DownStep::Done(RUNTIME_ERROR), ..run }
        },
        DownStep::Done(_) => run,
    }
}

/// The first step of `down` on a mounted mount point.
pub fn down_begin() -> (r: DownRun)
    ensures
        r == (DownRun { step: DownStep::Stop, interrupted: false }),
{
    DownRun { step: DownStep::Stop, interrupted: false }
}

/// The step of `down` after `run`, given whether its step succeeded.
pub fn down_advance(run: DownRun, ok: bool) -> (r: DownRun)
    ensures
        r == down_next(run, ok),
{
    match run.step {
        DownStep::Stop => if ok {
            DownRun { step: DownStep::CheckInterrupt, interrupted: run.interrupted }
        } else {
            DownRun { step: DownStep::Done(RUNTIME_ERROR), interrupted: run.interrupted }
        },
        DownStep::CheckInterrupt => DownRun { step: DownStep::Unmount, interrupted: !ok },
        DownStep::Unmount => if ok {
            DownRun { step: DownStep::RemoveDir, interrupted: run.interrupted }
        } else {
            DownRun { step: DownStep::Done(RUNTIME_ERROR), interrupted: run.interrupted }
        },
        DownStep::RemoveDir => if ok && !run.interrupted {
            DownRun { step: DownStep::Done(SUCCESS), interrupted: run.interrupted }
        } else {
            DownRun { step: DownStep::Done(RUNTIME_ERROR), interrupted: run.interrupted }
        },
        DownStep::Done(_) => run,
    }
}

/// `down` is idempotent: a run on a workspace whose mount point is not in the mount
/// table ends at once with `SUCCESS` and says there is nothing to do; and a run that
/// ends with `SUCCESS` after stopping has unmounted the mount point and removed it.
pub proof fn lemma_down_idempotent(
    workspace: Seq<char>,
    home: Seq<char>,
    table: Seq<(Seq<char>, Seq<char>)>,
    ok1: bool,
    ok2: bool,
    ok3: bool,
    ok4: bool,
)
    requires
        !is_managed(workspace, relay_of(home)),
    ensures
        source_at(table, mount_point_of(relay_of(home), workspace)) is None ==> down_begin_of(
            true,
            Ok(workspace),
            home,
            table,
        ) == (Begin::Exit {
            code: SUCCESS,
            message: nothing_to_do_text(workspace),
            to_stdout: true,
        }),
        ({
            let r1 = down_next(DownRun { step: DownStep::Stop, interrupted: false }, ok1);
            let r2 = down_next(r1, ok2);
            let r3 = down_next(r2, ok3);
            let r4 = down_next(r3, ok4);
            r4.step == DownStep::Done(SUCCESS) ==> r2.step == DownStep::Unmount && ok3
                && r3.step == DownStep::RemoveDir && ok4
        }),
{
}

/// An interruption seen before the unmount does not stop it: the unmount and the
/// removal still run, and the run then ends with `RUNTIME_ERROR`.
pub proof fn lemma_down_finishes_unmount(ok_unmount: bool, ok_remove: bool)
    ensures
        ({
            let r1 = down_next(DownRun { step: DownStep::CheckInterrupt, interrupted: false }, false);
            let r2 = down_next(r1, true);
            &&& r1.step == DownStep::Unmount
            &&& r2.step == DownStep::RemoveDir
            &&& down_next(r2, ok_remove).step == DownStep::Done(RUNTIME_ERROR)
        }),
{
}

} // verus!
