use vstd::prelude::*;

use crate::exit_codes::{RUNTIME_ERROR, USAGE_ERROR};
use crate::naming::{is_managed, relay_of};

verus! {

/// How an engine begins, once what it needs to observe has been observed.
#[derive(Debug)]
pub enum Start {
    /// End at once with `code`, printing `message` on stdout or on stderr.
    Exit { code: i32, message: String, to_stdout: bool },
    /// Go on with the workspace's mount name and mount point.
    Proceed { name: String, mount_point: String },
}

/// What a `Start` says, over views.
pub enum Begin {
    Exit { code: i32, message: Seq<char>, to_stdout: bool },
    Proceed { name: Seq<char>, mount_point: Seq<char> },
}

/// The view of a `Start`.
pub open spec fn begin_of(s: &Start) -> Begin {
    match s {
        Start::Exit { code, message, to_stdout } => Begin::Exit {
            code: *code,
            message: message@,
            to_stdout: *to_stdout,
        },
        Start::Proceed { name, mount_point } => Begin::Proceed {
            name: name@,
            mount_point: mount_point@,
        },
    }
}

/// Whether `b` ends the run with a usage error.
pub open spec fn is_usage_exit(b: Begin) -> bool {
    b matches Begin::Exit { code, .. } && code == USAGE_ERROR
}

/// The message printed when the container engine cannot be reached.
pub open spec fn engine_down_text() -> Seq<char> {
    "Docker is not available. Is Colima running?"@
}

/// The message printed when the workspace lies inside a managed mount.
pub open spec fn recursion_text() -> Seq<char> {
    "Cannot use a dcx-managed mount point as a workspace. Use the original workspace path instead."@
}

/// An exit with `code`, printing `message` on stderr.
pub fn fail(code: i32, message: &str) -> (r: Start)
    ensures
        begin_of(&r) == (Begin::Exit { code, message: message@, to_stdout: false }),
{
    Start::Exit { code, message: crate::cmd::owned(message), to_stdout: false }
}

/// The exit for an unreachable container engine.
pub fn engine_down() -> (r: Start)
    ensures
        begin_of(&r) == (Begin::Exit {
            code: RUNTIME_ERROR,
            message: engine_down_text(),
            to_stdout: false,
        }),
{
    fail(RUNTIME_ERROR, "Docker is not available. Is Colima running?")
}

/// The exit for a workspace that lies inside a managed mount.
pub fn recursion_refused() -> (r: Start)
    ensures
        begin_of(&r) == (Begin::Exit { code: USAGE_ERROR, message: recursion_text(), to_stdout: false }),
{
    fail(
        USAGE_ERROR,
        "Cannot use a dcx-managed mount point as a workspace. Use the original workspace path instead.",
    )
}

/// A workspace inside a managed mount of the relay is refused with `USAGE_ERROR` by `up`,
/// `down`, `exec` and `clean` alike, before any step that changes anything.
pub proof fn lemma_recursion_guard(
    w: Seq<char>,
    home: Seq<char>,
    config: Option<Seq<char>>,
    config_exists: bool,
    has_default_config: bool,
    dry_run: bool,
    table: Seq<(Seq<char>, Seq<char>)>,
    mount_exists: bool,
    has_container: bool,
)
    requires
        is_managed(w, relay_of(home)),
    ensures
        is_usage_exit(
            crate::up::up_begin_of(true, Ok(w), home, config, config_exists, has_default_config, dry_run),
        ),
        is_usage_exit(crate::down::down_begin_of(true, Ok(w), home, table)),
        is_usage_exit(crate::exec::exec_begin_of(true, Ok(w), home, table, mount_exists, has_container)),
        forall|all: bool|
            #[trigger] crate::clean::clean_begin_of(true, all, dry_run, Ok(w), home) matches crate::clean::CleanBegin::Exit {
                code,
                ..
            } && code == USAGE_ERROR,
{
}

/// Whether an answer to a prompt confirms: `y` or `yes` in any ASCII case, whitespace
/// around it aside.
pub open spec fn confirms(answer: Seq<char>) -> bool {
    let t = crate::text::trim(answer).map_values(|c: char| crate::text::ascii_lower(c));
    t == "y"@ || t == "yes"@
}

/// Whether an answer to a prompt confirms; anything else declines.
pub fn confirmed(answer: &str) -> (r: bool)
    ensures
        r == confirms(answer@),
{
    let t = crate::text::trim_chars(&crate::text::chars_of(answer));
    let l = crate::text::lowercase_ascii(crate::text::string_of(&t).as_str());
    crate::mount_table::same_chars(&l, &crate::text::chars_of("y"))
        || crate::mount_table::same_chars(&l, &crate::text::chars_of("yes"))
}

} // verus!
