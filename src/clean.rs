use vstd::prelude::*;

use crate::cmd::{concat, owned, str_views};
use crate::engine::{engine_down_text, recursion_text};
use crate::exit_codes::{RUNTIME_ERROR, SUCCESS, USAGE_ERROR};
use crate::naming::{
    is_dcx_managed_path, is_managed, join_path, mount_name, mount_point_of, relay_dir, relay_of,
};
use crate::format::{CleanEntry, DryRunPlan};
use crate::text::{chars_of, decimal, decimal_of, join_lines, joined, push_all, push_str, views};
use crate::up::resolved_view;

verus! {

/// The header of the confirmation prompt for `n` running containers.
pub open spec fn prompt_header(n: nat) -> Seq<char> {
    "\u{26a0} "@ + decimal(n) + " active container"@ + if n == 1 {
        Seq::<char>::empty()
    } else {
        "s"@
    } + " will be stopped:"@
}

/// The prompt line of one `(workspace, mount, container)` entry.
pub open spec fn prompt_line(e: (String, String, String)) -> Seq<char> {
    "  - "@ + e.0@ + "  \u{2192}  "@ + e.1@ + "  (container: "@ + e.2@ + ")"@
}

/// The confirmation prompt for the running containers `es`.
pub open spec fn prompt_text(es: Seq<(String, String, String)>) -> Seq<char> {
    joined(
        seq![prompt_header(es.len())] + es.map_values(
            |e: (String, String, String)| prompt_line(e),
        ),
    )
}

/// Build the warning that lists the running containers `clean` would stop, one line per
/// `(workspace, mount, container)` entry.
pub fn confirm_prompt(entries: &[(String, String, String)]) -> (r: String)
    ensures
        r@ == prompt_text(entries@),
{
    let n = entries.len();
    let mut head = chars_of("\u{26a0} ");
    push_all(&mut head, &decimal_of(n));
    push_str(&mut head, " active container");
    if n != 1 {
        push_str(&mut head, "s");
    }
    push_str(&mut head, " will be stopped:");
    proof {
        if n == 1 {
            assert(head@ =~= prompt_header(n as nat));
        } else {
            assert(head@ =~= prompt_header(n as nat));
        }
    }
    let mut ls: Vec<Vec<char>> = Vec::new();
    ls.push(head);
    let mut i: usize = 0;
    while i < n
        invariant
            i <= n == entries@.len(),
            views(ls@) == seq![prompt_header(n as nat)] + entries@.subrange(0, i as int).map_values(
                |e: (String, String, String)| prompt_line(e),
            ),
        decreases n - i,
    {
        let e = &entries[i];
        let mut l = chars_of("  - ");
        push_str(&mut l, e.0.as_str());
        push_str(&mut l, "  \u{2192}  ");
        push_str(&mut l, e.1.as_str());
        push_str(&mut l, "  (container: ");
        push_str(&mut l, e.2.as_str());
        push_str(&mut l, ")");
        proof {
            assert(l@ =~= prompt_line(*e));
        }
        let ghost before = views(ls@);
        ls.push(l);
        i = i + 1;
        proof {
            assert(views(ls@) =~= before.push(prompt_line(*e)));
            assert(views(ls@) =~= seq![prompt_header(n as nat)] + entries@.subrange(
                0,
                i as int,
            ).map_values(|e: (String, String, String)| prompt_line(e)));
        }
    }
    proof {
        assert(entries@.subrange(0, i as int) =~= entries@);
    }
    join_lines(&ls)
}

/// The state label that `clean` reports for an entry before cleaning it.
pub open spec fn state_label(in_table: bool, accessible: bool, has_container: bool) -> Seq<char> {
    if in_table && accessible {
        if has_container {
            "running"@
        } else {
            "orphaned"@
        }
    } else if in_table {
        "stale"@
    } else {
        "empty dir"@
    }
}

/// The state of an entry before cleaning: `running`, `orphaned`, `stale` or `empty dir`.
pub fn categorize_mount_state(in_table: bool, accessible: bool, has_container: bool) -> (r:
    &'static str)
    ensures
        r@ == state_label(in_table, accessible, has_container),
{
    if in_table && accessible {
        if has_container {
            "running"
        } else {
            "orphaned"
        }
    } else if in_table {
        "stale"
    } else {
        "empty dir"
    }
}

/// One action of cleaning an entry.
#[derive(Debug)]
pub enum CleanOp {
    /// Stop the container of the mount point (nothing to do when none runs).
    StopContainer,
    /// Find the runtime image of the container; this must come before its removal.
    ResolveRuntimeImage(String),
    /// Remove the container.
    RemoveContainer(String),
    /// Remove the runtime image found before.
    RemoveRuntimeImage,
    /// Remove the base-image alias of the mount name.
    RemoveBaseTag(String),
    /// Remove a volume.
    RemoveVolume(String),
    /// Unmount the mount point.
    Unmount,
    /// Remove the mount point's directory.
    RemoveDir,
}

/// What an action is, over views.
pub enum Op {
    StopContainer,
    ResolveRuntimeImage(Seq<char>),
    RemoveContainer(Seq<char>),
    RemoveRuntimeImage,
    RemoveBaseTag(Seq<char>),
    RemoveVolume(Seq<char>),
    Unmount,
    RemoveDir,
}

/// The view of an action.
pub open spec fn op_of(o: CleanOp) -> Op {
    match o {
        CleanOp::StopContainer => Op::StopContainer,
        CleanOp::ResolveRuntimeImage(id) => Op::ResolveRuntimeImage(id@),
        CleanOp::RemoveContainer(id) => Op::RemoveContainer(id@),
        CleanOp::RemoveRuntimeImage => Op::RemoveRuntimeImage,
        CleanOp::RemoveBaseTag(n) => Op::RemoveBaseTag(n@),
        CleanOp::RemoveVolume(v) => Op::RemoveVolume(v@),
        CleanOp::Unmount => Op::Unmount,
        CleanOp::RemoveDir => Op::RemoveDir,
    }
}

/// The views of a list of actions.
pub open spec fn ops_of(v: Seq<CleanOp>) -> Seq<Op> {
    v.map_values(|o: CleanOp| op_of(o))
}

/// The actions that clean one entry, in order: stop; with a container, find its runtime
/// image, remove the container, then the image; under purge, remove the base-image
/// alias and the volumes; unmount if mounted; remove the directory if it exists.
pub open spec fn entry_plan(
    mount_name: Seq<char>,
    container: Option<Seq<char>>,
    purge: bool,
    volumes: Seq<Seq<char>>,
    is_mounted: bool,
    dir_exists: bool,
) -> Seq<Op> {
    seq![Op::StopContainer] + match container {
        Some(id) => seq![
            Op::ResolveRuntimeImage(id),
            Op::RemoveContainer(id),
            Op::RemoveRuntimeImage,
        ],
        None => Seq::empty(),
    } + if purge {
        seq![Op::RemoveBaseTag(mount_name)] + volumes.map_values(|v: Seq<char>| Op::RemoveVolume(v))
    } else {
        Seq::empty()
    } + if is_mounted {
        seq![Op::Unmount]
    } else {
        Seq::empty()
    } + if dir_exists {
        seq![Op::RemoveDir]
    } else {
        Seq::empty()
    }
}

/// Plan the actions that clean one entry, as `entry_plan` states them.
pub fn clean_ops(
    mount_name: &str,
    container_id: &Option<String>,
    purge: bool,
    volumes: &Vec<String>,
    is_mounted: bool,
    dir_exists: bool,
) -> (r: Vec<CleanOp>)
    ensures
        ops_of(r@) == entry_plan(
            mount_name@,
            crate::up::opt_string_view(container_id),
            purge,
            str_views(volumes@),
            is_mounted,
            dir_exists,
        ),
{
    let mut r: Vec<CleanOp> = Vec::new();
    r.push(CleanOp::StopContainer);
    let ghost s1 = ops_of(r@);
    if let Some(id) = container_id {
        r.push(CleanOp::ResolveRuntimeImage(id.clone()));
        r.push(CleanOp::RemoveContainer(id.clone()));
        r.push(CleanOp::RemoveRuntimeImage);
    }
    let ghost s2 = ops_of(r@);
    proof {
        assert(s1 =~= seq![Op::StopContainer]);
        assert(s2 =~= s1 + match crate::up::opt_string_view(container_id) {
            Some(id) => seq![
                Op::ResolveRuntimeImage(id),
                Op::RemoveContainer(id),
                Op::RemoveRuntimeImage,
            ],
            None => Seq::empty(),
        });
    }
    if purge {
        r.push(CleanOp::RemoveBaseTag(owned(mount_name)));
        let ghost s3 = ops_of(r@);
        let mut j: usize = 0;
        while j < volumes.len()
            invariant
                j <= volumes@.len(),
                ops_of(r@) == s3 + str_views(volumes@).subrange(0, j as int).map_values(
                    |v: Seq<char>| Op::RemoveVolume(v),
                ),
            decreases volumes@.len() - j,
        {
            let ghost b = ops_of(r@);
            r.push(CleanOp::RemoveVolume(volumes[j].clone()));
            j = j + 1;
            proof {
                assert(ops_of(r@) =~= b.push(Op::RemoveVolume(volumes@[j - 1]@)));
                assert(ops_of(r@) =~= s3 + str_views(volumes@).subrange(0, j as int).map_values(
                    |v: Seq<char>| Op::RemoveVolume(v),
                ));
            }
        }
        proof {
            assert(str_views(volumes@).subrange(0, j as int) =~= str_views(volumes@));
        }
    }
    let ghost s4 = ops_of(r@);
    proof {
        assert(s4 =~= s2 + if purge {
            seq![Op::RemoveBaseTag(mount_name@)] + str_views(volumes@).map_values(
                |v: Seq<char>| Op::RemoveVolume(v),
            )
        } else {
            Seq::empty()
        });
    }
    if is_mounted {
        r.push(CleanOp::Unmount);
    }
    let ghost s5 = ops_of(r@);
    proof {
        assert(s5 =~= s4 + if is_mounted {
            seq![Op::Unmount]
        } else {
            Seq::empty()
        });
    }
    if dir_exists {
        r.push(CleanOp::RemoveDir);
    }
    proof {
        assert(ops_of(r@) =~= s5 + if dir_exists {
            seq![Op::RemoveDir]
        } else {
            Seq::empty()
        });
    }
    r
}

/// Whether a failed action fails the entry; the purge-only removals only leave a note.
pub open spec fn is_fatal(o: Op) -> bool {
    !(o is RemoveBaseTag || o is RemoveVolume)
}

/// Whether a failure of `op` fails the entry it belongs to.
pub fn op_is_fatal(op: &CleanOp) -> (r: bool)
    ensures
        r == is_fatal(op_of(*op)),
{
    match op {
        CleanOp::RemoveBaseTag(_) => false,
        CleanOp::RemoveVolume(_) => false,
        _ => true,
    }
}

/// Without `--purge`, cleaning an entry removes no base-image alias and no volume.
pub proof fn lemma_no_purge_keeps_tags_and_volumes(
    mount_name: Seq<char>,
    container: Option<Seq<char>>,
    volumes: Seq<Seq<char>>,
    is_mounted: bool,
    dir_exists: bool,
)
    ensures
        forall|i: int|
            0 <= i < entry_plan(mount_name, container, false, volumes, is_mounted, dir_exists).len()
                ==> !(#[trigger] entry_plan(
                mount_name,
                container,
                false,
                volumes,
                is_mounted,
                dir_exists,
            )[i] is RemoveBaseTag || entry_plan(
                mount_name,
                container,
                false,
                volumes,
                is_mounted,
                dir_exists,
            )[i] is RemoveVolume),
{
    let p = entry_plan(mount_name, container, false, volumes, is_mounted, dir_exists);
    let c = match container {
        Some(id) => seq![
            Op::ResolveRuntimeImage(id),
            Op::RemoveContainer(id),
            Op::RemoveRuntimeImage,
        ],
        None => Seq::<Op>::empty(),
    };
    let m = if is_mounted {
        seq![Op::Unmount]
    } else {
        Seq::<Op>::empty()
    };
    let d = if dir_exists {
        seq![Op::RemoveDir]
    } else {
        Seq::<Op>::empty()
    };
    assert(p =~= seq![Op::StopContainer] + c + m + d);
}

/// The action reported for an entry that was cleaned.
pub open spec fn action_text(had_container: bool) -> Seq<char> {
    if had_container {
        "stopped, removed"@
    } else {
        "removed"@
    }
}

/// The sweeps that end a `clean --all` run: orphan containers and unused runtime images,
/// and under purge the remaining base-image aliases, orphan build images and volumes.
#[derive(Debug, Clone, Copy, PartialEq, Eq, Structural)]
pub enum Sweep {
    OrphanContainers,
    OrphanImages,
    BaseTags,
    BuildImages,
    Volumes,
}

/// The final sweeps of `clean --all`, as `final_sweeps` lists them.
pub open spec fn sweep_plan(purge: bool) -> Seq<Sweep> {
    if purge {
        seq![
            Sweep::OrphanContainers,
            Sweep::OrphanImages,
            Sweep::BaseTags,
            Sweep::BuildImages,
            Sweep::Volumes,
        ]
    } else {
        seq![Sweep::OrphanContainers, Sweep::OrphanImages]
    }
}

/// The sweeps that end a `clean --all` run, in order.
pub fn final_sweeps(purge: bool) -> (r: Vec<Sweep>)
    ensures
        r@ == sweep_plan(purge),
{
    let r = if purge {
        vec![
            Sweep::OrphanContainers,
            Sweep::OrphanImages,
            Sweep::BaseTags,
            Sweep::BuildImages,
            Sweep::Volumes,
        ]
    } else {
        vec![Sweep::OrphanContainers, Sweep::OrphanImages]
    };
    proof {
        assert(r@ =~= sweep_plan(purge));
    }
    r
}

/// Without `--purge`, the final sweeps remove no base-image alias and no volume.
pub proof fn lemma_no_purge_sweeps(purge: bool)
    ensures
        !purge ==> forall|i: int|
            0 <= i < sweep_plan(purge).len() ==> #[trigger] sweep_plan(purge)[i] != Sweep::BaseTags
                && sweep_plan(purge)[i] != Sweep::Volumes,
{
}

/// The index of the first fatal failure among `results`, the outcomes of `ops` in order.
pub open spec fn first_fatal(ops: Seq<Op>, results: Seq<Result<(), String>>) -> Option<int>
    decreases results.len(),
{
    if results.len() == 0 || ops.len() == 0 {
        None
    } else if results[0] is Err && is_fatal(ops[0]) {
        Some(0)
    } else {
        match first_fatal(ops.subrange(1, ops.len() as int), results.subrange(1, results.len() as int)) {
            Some(i) => Some(i + 1),
            None => None,
        }
    }
}

/// The outcome of cleaning an entry: the first fatal failure's error, or the state it had
/// and what was done.
pub open spec fn entry_result(
    ops: Seq<Op>,
    results: Seq<Result<(), String>>,
    state: Seq<char>,
    had_container: bool,
) -> Result<(Seq<char>, Seq<char>), Seq<char>> {
    match first_fatal(ops, results) {
        Some(i) => Err(results[i]->Err_0@),
        None => Ok((state, action_text(had_container))),
    }
}

/// The view of an entry's outcome.
pub open spec fn outcome_view(o: &Result<(String, String), String>) -> Result<
    (Seq<char>, Seq<char>),
    Seq<char>,
> {
    match o {
        Ok((a, b)) => Ok((a@, b@)),
        Err(e) => Err(e@),
    }
}

/// The outcome of cleaning an entry from the results of its actions, run in order: the
/// first failure of an action that is not a purge-only removal fails the entry.
pub fn entry_outcome(
    ops: &Vec<CleanOp>,
    results: &Vec<Result<(), String>>,
    state: &str,
    had_container: bool,
) -> (r: Result<(String, String), String>)
    ensures
        outcome_view(&r) == entry_result(ops_of(ops@), results@, state@, had_container),
{
    let ghost all_ops = ops_of(ops@);
    let mut i: usize = 0;
    proof {
        assert(all_ops.subrange(0, all_ops.len() as int) =~= all_ops);
        assert(results@.subrange(0, results@.len() as int) =~= results@);
    }
    while i < results.len() && i < ops.len()
        invariant
            i <= results@.len(),
            i <= ops@.len(),
            all_ops == ops_of(ops@),
            first_fatal(all_ops, results@) == (match first_fatal(
                all_ops.subrange(i as int, all_ops.len() as int),
                results@.subrange(i as int, results@.len() as int),
            ) {
                Some(k) => Some(k + i),
                None => None::<int>,
            }),
        decreases results@.len() - i,
    {
        let ghost so = all_ops.subrange(i as int, all_ops.len() as int);
        let ghost sr = results@.subrange(i as int, results@.len() as int);
        proof {
            assert(so.subrange(1, so.len() as int) =~= all_ops.subrange(i + 1, all_ops.len() as int));
            assert(sr.subrange(1, sr.len() as int) =~= results@.subrange(
                i + 1,
                results@.len() as int,
            ));
            assert(so[0] == op_of(ops@[i as int]));
            assert(sr[0] == results@[i as int]);
        }
        if let Err(e) = &results[i] {
            if op_is_fatal(&ops[i]) {
                return Err(e.clone());
            }
        }
        i = i + 1;
    }
    let action = if had_container {
        owned("stopped, removed")
    } else {
        owned("removed")
    };
    Ok((owned(state), action))
}

proof fn lemma_first_fatal_at(ops: Seq<Op>, results: Seq<Result<(), String>>, k: int)
    requires
        0 <= k < ops.len(),
        k < results.len(),
        results[k] is Err,
        is_fatal(ops[k]),
        forall|j: int| 0 <= j < k ==> !(#[trigger] results[j] is Err && is_fatal(ops[j])),
    ensures
        first_fatal(ops, results) == Some(k),
    decreases k,
{
    if k > 0 {
        let o1 = ops.subrange(1, ops.len() as int);
        let r1 = results.subrange(1, results.len() as int);
        assert forall|j: int| 0 <= j < k - 1 implies !(#[trigger] r1[j] is Err && is_fatal(o1[j])) by {
            assert(r1[j] == results[j + 1]);
            assert(o1[j] == ops[j + 1]);
        }
        assert(r1[k - 1] == results[k]);
        assert(o1[k - 1] == ops[k]);
        lemma_first_fatal_at(o1, r1, k - 1);
        assert(!(results[0] is Err && is_fatal(ops[0])));
    }
}

/// An entry whose unmount fails is not cleaned: its outcome is that failure, when the
/// actions before it succeeded or failed only as notes.
pub proof fn lemma_unmount_failure_fails_entry(
    ops: Seq<Op>,
    results: Seq<Result<(), String>>,
    k: int,
    state: Seq<char>,
    had_container: bool,
)
    requires
        0 <= k < ops.len(),
        k < results.len(),
        ops[k] is Unmount,
        results[k] is Err,
        forall|j: int| 0 <= j < k ==> !(#[trigger] results[j] is Err && is_fatal(ops[j])),
    ensures
        entry_result(ops, results, state, had_container) == Err::<(Seq<char>, Seq<char>), Seq<char>>(
            results[k]->Err_0@,
        ),
{
    lemma_first_fatal_at(ops, results, k);
}

/// What a multi-entry `clean` run has gathered so far.
pub struct CleanTally {
    /// The entries cleaned, in order.
    pub cleaned: Vec<CleanEntry>,
    /// One line per entry that failed, naming its mount point.
    pub failures: Vec<String>,
    /// How many entries were processed.
    pub processed: usize,
}

/// What a tally holds, over views: entries processed, mount names cleaned, failure lines.
pub struct TallyView {
    pub processed: nat,
    pub cleaned: Seq<Seq<char>>,
    pub failures: Seq<Seq<char>>,
}

/// The view of a tally.
pub open spec fn tally_of(t: &CleanTally) -> TallyView {
    TallyView {
        processed: t.processed as nat,
        cleaned: t.cleaned@.map_values(|e: CleanEntry| e.mount@),
        failures: str_views(t.failures@),
    }
}

/// The tally after one more entry, cleaned or failed.
pub open spec fn tally_next(
    t: TallyView,
    mount_point: Seq<char>,
    mount_name: Seq<char>,
    outcome: Result<(Seq<char>, Seq<char>), Seq<char>>,
) -> TallyView {
    match outcome {
        Ok(_) => TallyView { processed: t.processed + 1, cleaned: t.cleaned.push(mount_name), ..t },
        Err(e) => TallyView {
            processed: t.processed + 1,
            failures: t.failures.push(mount_point + ": "@ + e),
            ..t
        },
    }
}

/// The exit code of a run with the tally `t`.
pub open spec fn tally_code(t: TallyView) -> i32 {
    if t.failures.len() == 0 {
        SUCCESS
    } else {
        RUNTIME_ERROR
    }
}

impl CleanTally {
    /// An empty tally.
    pub fn new() -> (r: CleanTally)
        ensures
            tally_of(&r) == (TallyView { processed: 0, cleaned: Seq::empty(), failures: Seq::empty() }),
    {
        let r = CleanTally { cleaned: Vec::new(), failures: Vec::new(), processed: 0 };
        proof {
            assert(tally_of(&r).cleaned =~= Seq::<Seq<char>>::empty());
            assert(tally_of(&r).failures =~= Seq::<Seq<char>>::empty());
        }
        r
    }

    /// Record the outcome of one entry; a failure is kept and the run goes on. Returns
    /// whether to go on to the next entry: not once an interruption has been seen.
    pub fn record(
        &mut self,
        mount_point: &str,
        mount_name: &str,
        outcome: Result<(String, String), String>,
        interrupted: bool,
    ) -> (go_on: bool)
        requires
            old(self).processed < usize::MAX,
        ensures
            tally_of(final(self)) == tally_next(
                tally_of(old(self)),
                mount_point@,
                mount_name@,
                outcome_view(&outcome),
            ),
            go_on == !interrupted,
    {
        let ghost before = tally_of(self);
        match outcome {
            Ok((was, action)) => {
                self.cleaned.push(CleanEntry { workspace: None, mount: owned(mount_name), was, action });
            },
            Err(e) => {
                let line = concat(concat(mount_point, ": ").as_str(), e.as_str());
                self.failures.push(line);
            },
        }
        self.processed = self.processed + 1;
        proof {
            assert(tally_of(self).cleaned =~= tally_next(
                before,
                mount_point@,
                mount_name@,
                outcome_view(&outcome),
            ).cleaned);
            assert(tally_of(self).failures =~= tally_next(
                before,
                mount_point@,
                mount_name@,
                outcome_view(&outcome),
            ).failures);
        }
        !interrupted
    }

    /// The exit code of the run: `RUNTIME_ERROR` if any entry failed, else `SUCCESS`.
    pub fn exit_code(&self) -> (r: i32)
        ensures
            r == tally_code(tally_of(self)),
    {
        if self.failures.len() == 0 {
            SUCCESS
        } else {
            RUNTIME_ERROR
        }
    }
}

/// A failing entry does not stop `clean`: of three entries where the middle one fails,
/// the first and third are still processed, the run ends with `RUNTIME_ERROR`, and the
/// one failure line names the middle entry's mount point.
pub proof fn lemma_clean_continues_past_failures(
    m1: Seq<char>,
    n1: Seq<char>,
    o1: (Seq<char>, Seq<char>),
    m2: Seq<char>,
    n2: Seq<char>,
    e2: Seq<char>,
    m3: Seq<char>,
    n3: Seq<char>,
    o3: (Seq<char>, Seq<char>),
)
    ensures
        ({
            let t0 = TallyView { processed: 0, cleaned: Seq::empty(), failures: Seq::empty() };
            let t1 = tally_next(t0, m1, n1, Ok(o1));
            let t2 = tally_next(t1, m2, n2, Err(e2));
            let t3 = tally_next(t2, m3, n3, Ok(o3));
            &&& t3.processed == 3
            &&& t3.cleaned == seq![n1, n3]
            &&& t3.failures == seq![m2 + ": "@ + e2]
            &&& tally_code(t3) == RUNTIME_ERROR
        }),
{
    let t0 = TallyView { processed: 0, cleaned: Seq::empty(), failures: Seq::empty() };
    let t1 = tally_next(t0, m1, n1, Ok(o1));
    let t2 = tally_next(t1, m2, n2, Err(e2));
    let t3 = tally_next(t2, m3, n3, Ok(o3));
    assert(t3.cleaned =~= seq![n1, n3]);
    assert(t3.failures =~= seq![m2 + ": "@ + e2]);
}

/// How `clean` begins.
#[derive(Debug)]
pub enum CleanStart {
    /// End at once with `code`, printing `message` on stderr.
    Exit { code: i32, message: String },
    /// Show what would be cleaned and change nothing: the workspace's mount point, or
    /// with `None` every entry of the relay.
    Preview { mount_point: Option<String> },
    /// Clean the workspace's mount point, or with `None` every entry of the relay.
    Execute { mount_point: Option<String> },
}

/// What a `CleanStart` says, over views.
pub enum CleanBegin {
    Exit { code: i32, message: Seq<char> },
    Preview { mount_point: Option<Seq<char>> },
    Execute { mount_point: Option<Seq<char>> },
}

/// The view of a `CleanStart`.
pub open spec fn clean_begin_view(s: &CleanStart) -> CleanBegin {
    match s {
        CleanStart::Exit { code, message } => CleanBegin::Exit { code: *code, message: message@ },
        CleanStart::Preview { mount_point } => CleanBegin::Preview {
            mount_point: crate::up::opt_string_view(mount_point),
        },
        CleanStart::Execute { mount_point } => CleanBegin::Execute {
            mount_point: crate::up::opt_string_view(mount_point),
        },
    }
}

/// What `clean` begins with, as `clean_start` decides it.
pub open spec fn clean_begin_of(
    available: bool,
    all: bool,
    dry_run: bool,
    workspace: Result<Seq<char>, Seq<char>>,
    home: Seq<char>,
) -> CleanBegin {
    if !available {
        CleanBegin::Exit { code: RUNTIME_ERROR, message: engine_down_text() }
    } else if workspace matches Ok(w) && is_managed(w, relay_of(home)) {
        CleanBegin::Exit { code: USAGE_ERROR, message: recursion_text() }
    } else if all {
        if dry_run {
            CleanBegin::Preview { mount_point: None }
        } else {
            CleanBegin::Execute { mount_point: None }
        }
    } else {
        match workspace {
            Err(_) => CleanBegin::Exit {
                code: USAGE_ERROR,
                message: "Workspace directory does not exist."@,
            },
            Ok(w) => if dry_run {
                CleanBegin::Preview { mount_point: Some(mount_point_of(relay_of(home), w)) }
            } else {
                CleanBegin::Execute { mount_point: Some(mount_point_of(relay_of(home), w)) }
            },
        }
    }
}

/// Decide how `clean` begins: the engine must be reachable and a resolved workspace must
/// lie outside the managed mounts; without `--all` the workspace must be resolved. Under
/// `--dry-run` it only previews.
pub fn clean_start(
    available: bool,
    all: bool,
    dry_run: bool,
    workspace: &Result<String, String>,
    home: &str,
) -> (r: CleanStart)
    ensures
        clean_begin_view(&r) == clean_begin_of(available, all, dry_run, resolved_view(workspace), home@),
{
    if !available {
        return CleanStart::Exit {
            code: RUNTIME_ERROR,
            message: owned("Docker is not available. Is Colima running?"),
        };
    }
    let relay = relay_dir(home);
    if let Ok(w) = workspace {
        if is_dcx_managed_path(w.as_str(), relay.as_str()) {
            return CleanStart::Exit {
                code: USAGE_ERROR,
                message: owned(
                    "Cannot use a dcx-managed mount point as a workspace. Use the original workspace path instead.",
                ),
            };
        }
    }
    if all {
        return if dry_run {
            CleanStart::Preview { mount_point: None }
        } else {
            CleanStart::Execute { mount_point: None }
        };
    }
    let w = match workspace {
        Err(_) => {
            return CleanStart::Exit {
                code: USAGE_ERROR,
                message: owned("Workspace directory does not exist."),
            };
        },
        Ok(w) => w,
    };
    let mount_point = join_path(relay.as_str(), mount_name(w.as_str()).as_str());
    if dry_run {
        CleanStart::Preview { mount_point: Some(mount_point) }
    } else {
        CleanStart::Execute { mount_point: Some(mount_point) }
    }
}

/// Under `--dry-run`, `clean` never executes: it only previews, or ends at once.
pub proof fn lemma_clean_dry_run(
    available: bool,
    all: bool,
    workspace: Result<Seq<char>, Seq<char>>,
    home: Seq<char>,
)
    ensures
        !(clean_begin_of(available, all, true, workspace, home) is Execute),
{
}

/// The plan of one entry, from what was observed of it: the mount name is the mount
/// point's last component; the base-image alias and the volumes count only under purge.
pub open spec fn scan_plan_ok(
    r: DryRunPlan,
    mount_point: Seq<char>,
    in_table: bool,
    accessible: bool,
    container_id: Option<Seq<char>>,
    runtime_image: Option<Seq<char>>,
    base_tag_exists: bool,
    volumes: Seq<Seq<char>>,
    purge: bool,
) -> bool {
    &&& r.mount_name@ == crate::naming::last_component(mount_point)
    &&& r.state@ == state_label(in_table, accessible, container_id is Some)
    &&& crate::up::opt_string_view(&r.container_id) == container_id
    &&& crate::up::opt_string_view(&r.runtime_image_id) == if container_id is Some {
        runtime_image
    } else {
        None
    }
    &&& r.has_base_image_tag == (purge && base_tag_exists)
    &&& str_views(r.volumes@) == if purge && container_id is Some {
        volumes
    } else {
        Seq::empty()
    }
    &&& r.is_mounted == in_table
}

/// Build the plan of one relay entry from what was observed of it, changing nothing.
pub fn scan_one(
    mount_point: &str,
    in_table: bool,
    accessible: bool,
    container_id: Option<String>,
    runtime_image: Option<String>,
    base_tag_exists: bool,
    volumes: Vec<String>,
    purge: bool,
) -> (r: DryRunPlan)
    ensures
        scan_plan_ok(
            r,
            mount_point@,
            in_table,
            accessible,
            crate::up::opt_string_view(&container_id),
            crate::up::opt_string_view(&runtime_image),
            base_tag_exists,
            str_views(volumes@),
            purge,
        ),
{
    let name = crate::naming::final_component(&chars_of(mount_point));
    let has_container = container_id.is_some();
    let state = owned(categorize_mount_state(in_table, accessible, has_container));
    let runtime_image_id = if has_container {
        runtime_image
    } else {
        None
    };
    let vols = if purge && has_container {
        volumes
    } else {
        let e: Vec<String> = Vec::new();
        proof {
            assert(str_views(e@) =~= Seq::<Seq<char>>::empty());
        }
        e
    };
    DryRunPlan {
        mount_name: crate::text::string_of(&name),
        state,
        container_id,
        runtime_image_id,
        has_base_image_tag: purge && base_tag_exists,
        volumes: vols,
        is_mounted: in_table,
    }
}

/// Whether `clean` without `--all` also cleans the relay entry `path`: a directory other
/// than the workspace's own mount point, listed in the mount table, with no container.
pub fn is_orphan_mount(
    path: &str,
    mount_point: &str,
    is_dir: bool,
    in_table: bool,
    has_container: bool,
) -> (r: bool)
    ensures
        r == (is_dir && path@ != mount_point@ && in_table && !has_container),
{
    is_dir && in_table && !has_container && !crate::mount_table::same_chars(
        &chars_of(path),
        &chars_of(mount_point),
    )
}

/// Whether `clean` must ask before stopping containers: some are running and `--yes` was
/// not given.
pub fn needs_confirmation(running: usize, yes: bool) -> (r: bool)
    ensures
        r == (running > 0 && !yes),
{
    running > 0 && !yes
}

/// Whether `clean` without `--all` cleans the workspace's own mount point: when its
/// directory exists, or under purge to remove what the mount left behind.
pub fn cleans_current(dir_exists: bool, purge: bool) -> (r: bool)
    ensures
        r == (dir_exists || purge),
{
    dir_exists || purge
}

/// How a `clean` of the current workspace ends.
#[derive(Debug)]
pub struct Finish {
    /// The exit code.
    pub code: i32,
    /// A line for stdout, if any.
    pub stdout: Option<String>,
    /// A line for stderr, if any.
    pub stderr: Option<String>,
    /// Whether to report the run as done.
    pub done: bool,
}

/// How a `clean` of the current workspace `workspace` ends, given how many entries were
/// cleaned and the errors met: the first error fails the run; with none, an empty run
/// says there was nothing to clean.
pub fn current_finish(workspace: &str, cleaned: usize, errors: &Vec<String>) -> (r: Finish)
    ensures
        errors@.len() > 0 ==> r.code == RUNTIME_ERROR && !r.done && r.stdout is None && (r.stderr
            matches Some(e) && e@ == "Error: "@ + errors@[0]@),
        errors@.len() == 0 && cleaned == 0 ==> r.code == SUCCESS && !r.done && r.stderr is None && (
        r.stdout matches Some(o) && o@ == "Nothing to clean for "@ + workspace@ + "."@),
        errors@.len() == 0 && cleaned > 0 ==> r.code == SUCCESS && r.done && r.stdout is None
            && r.stderr is None,
{
    if errors.len() > 0 {
        Finish {
            code: RUNTIME_ERROR,
            stdout: None,
            stderr: Some(concat("Error: ", errors[0].as_str())),
            done: false,
        }
    } else if cleaned == 0 {
        Finish {
            code: SUCCESS,
            stdout: Some(concat(concat("Nothing to clean for ", workspace).as_str(), ".")),
            stderr: None,
            done: false,
        }
    } else {
        Finish { code: SUCCESS, stdout: None, stderr: None, done: true }
    }
}

} // verus!
