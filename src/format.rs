use vstd::prelude::*;

use crate::cmd::owned;
use crate::text::{
    chars_of, decimal, decimal_of, join_lines, joined, padded, push_all, push_padded, push_str,
    views,
};

verus! {

/// A row of the `status` table.
pub struct StatusRow {
    /// The original workspace path, if it can be resolved.
    pub workspace: Option<String>,
    /// The mount name.
    pub mount: String,
    /// The container's short ID, if it has one.
    pub container: Option<String>,
    /// The state label.
    pub state: String,
}

/// A field shown as `fallback` when it is absent.
pub open spec fn or_else(o: Option<String>, fallback: Seq<char>) -> Seq<char> {
    match o {
        Some(s) => s@,
        None => fallback,
    }
}

/// One line of the `status` table.
pub open spec fn table_line(a: Seq<char>, b: Seq<char>, c: Seq<char>, d: Seq<char>) -> Seq<char> {
    padded(a, 30) + " "@ + padded(b, 30) + " "@ + padded(c, 12) + " "@ + d
}

/// The line of the `status` table for `row`.
pub open spec fn status_line(row: StatusRow) -> Seq<char> {
    table_line(
        or_else(row.workspace, "(unknown)"@),
        row.mount@,
        or_else(row.container, "(none)"@),
        row.state@,
    )
}

/// The `status` table.
pub open spec fn status_table(rows: Seq<StatusRow>) -> Seq<char> {
    if rows.len() == 0 {
        "No active workspaces."@
    } else {
        joined(
            seq![table_line("WORKSPACE"@, "MOUNT"@, "CONTAINER"@, "STATE"@)] + rows.map_values(
                |r: StatusRow| status_line(r),
            ),
        )
    }
}

/// The line `a b c d` with the first three columns padded to 30, 30 and 12.
fn table_row(a: &str, b: &str, c: &str, d: &str) -> (r: Vec<char>)
    ensures
        r@ == table_line(a@, b@, c@, d@),
{
    let mut v: Vec<char> = Vec::new();
    push_padded(&mut v, a, 30);
    v.push(' ');
    push_padded(&mut v, b, 30);
    v.push(' ');
    push_padded(&mut v, c, 12);
    v.push(' ');
    push_str(&mut v, d);
    proof {
        reveal_strlit(" ");
        assert(v@ =~= table_line(a@, b@, c@, d@));
    }
    v
}

/// The text of an optional field, or `fallback` when it is absent.
fn shown<'a>(o: &'a Option<String>, fallback: &'a str) -> (r: &'a str)
    ensures
        r@ == or_else(*o, fallback@),
{
    match o {
        Some(s) => s.as_str(),
        None => fallback,
    }
}

/// Format the `status` table: a header and one aligned line per row, or a fixed line
/// when there are no rows.
pub fn format_status_table(rows: &[StatusRow]) -> (r: String)
    ensures
        r@ == status_table(rows@),
{
    if rows.len() == 0 {
        return owned("No active workspaces.");
    }
    let mut ls: Vec<Vec<char>> = Vec::new();
    ls.push(table_row("WORKSPACE", "MOUNT", "CONTAINER", "STATE"));
    let ghost head = table_line("WORKSPACE"@, "MOUNT"@, "CONTAINER"@, "STATE"@);
    let mut i: usize = 0;
    while i < rows.len()
        invariant
            i <= rows@.len(),
            views(ls@) == seq![head] + rows@.subrange(0, i as int).map_values(
                |r: StatusRow| status_line(r),
            ),
        decreases rows@.len() - i,
    {
        let row = &rows[i];
        let line = table_row(
            shown(&row.workspace, "(unknown)"),
            row.mount.as_str(),
            shown(&row.container, "(none)"),
            row.state.as_str(),
        );
        let ghost before = views(ls@);
        ls.push(line);
        i = i + 1;
        proof {
            assert(views(ls@) =~= before.push(line@));
            assert(views(ls@) =~= seq![head] + rows@.subrange(0, i as int).map_values(
                |r: StatusRow| status_line(r),
            ));
        }
    }
    proof {
        assert(rows@.subrange(0, i as int) =~= rows@);
    }
    join_lines(&ls)
}

/// The result of one prerequisite check of `doctor`.
pub struct DoctorCheck {
    /// What was checked.
    pub name: String,
    /// Whether the check passed.
    pub passed: bool,
    /// On a pass, a version if known; on a failure, a fix if known.
    pub detail: Option<String>,
}

/// The report lines of one check.
pub open spec fn check_lines(c: DoctorCheck) -> Seq<Seq<char>> {
    if c.passed {
        seq![
            "  \u{2713} "@ + c.name@ + match c.detail {
                Some(d) => " ("@ + d@ + ")"@,
                None => Seq::empty(),
            },
        ]
    } else {
        seq!["  \u{2717} "@ + c.name@] + match c.detail {
            Some(d) => seq!["    Fix: "@ + d@],
            None => Seq::empty(),
        }
    }
}

/// The report lines of the checks `cs`, in order.
pub open spec fn checks_lines(cs: Seq<DoctorCheck>) -> Seq<Seq<char>>
    decreases cs.len(),
{
    if cs.len() == 0 {
        Seq::empty()
    } else {
        checks_lines(cs.drop_last()) + check_lines(cs.last())
    }
}

/// Whether there are checks and all of them passed.
pub open spec fn all_passed(cs: Seq<DoctorCheck>) -> bool {
    cs.len() > 0 && forall|i: int| 0 <= i < cs.len() ==> #[trigger] cs[i].passed
}

/// The `doctor` report.
pub open spec fn doctor_report(cs: Seq<DoctorCheck>) -> Seq<char> {
    joined(
        seq!["Checking prerequisites..."@] + checks_lines(cs) + if all_passed(cs) {
            seq![Seq::<char>::empty(), "All checks passed."@]
        } else {
            Seq::empty()
        },
    )
}

/// Format the `doctor` report: a line per check, a fix under each failure that has one,
/// and a closing line when every check passed.
pub fn format_doctor_report(checks: &[DoctorCheck]) -> (r: String)
    ensures
        r@ == doctor_report(checks@),
{
    let mut ls: Vec<Vec<char>> = Vec::new();
    ls.push(chars_of("Checking prerequisites..."));
    let mut all = checks.len() > 0;
    let mut i: usize = 0;
    while i < checks.len()
        invariant
            i <= checks@.len(),
            views(ls@) == seq!["Checking prerequisites..."@] + checks_lines(
                checks@.subrange(0, i as int),
            ),
            all == (checks@.len() > 0 && forall|k: int| 0 <= k < i ==> #[trigger] checks@[k].passed),
        decreases checks@.len() - i,
    {
        let c = &checks[i];
        let ghost before = views(ls@);
        proof {
            assert(checks@.subrange(0, i + 1).drop_last() =~= checks@.subrange(0, i as int));
            assert(checks@.subrange(0, i + 1).last() == checks@[i as int]);
        }
        if c.passed {
            let mut line = chars_of("  \u{2713} ");
            push_str(&mut line, c.name.as_str());
            if let Some(d) = &c.detail {
                push_str(&mut line, " (");
                push_str(&mut line, d.as_str());
                push_str(&mut line, ")");
            }
            proof {
                assert(line@ =~= "  \u{2713} "@ + c.name@ + match c.detail {
                    Some(d) => " ("@ + d@ + ")"@,
                    None => Seq::empty(),
                });
            }
            ls.push(line);
            proof {
                assert(views(ls@) =~= before.push(line@));
                assert(views(ls@) =~= before + check_lines(*c));
            }
        } else {
            all = false;
            let mut line = chars_of("  \u{2717} ");
            push_str(&mut line, c.name.as_str());
            ls.push(line);
            if let Some(d) = &c.detail {
                let mut fix = chars_of("    Fix: ");
                push_str(&mut fix, d.as_str());
                ls.push(fix);
            }
            proof {
                assert(views(ls@) =~= before + check_lines(*c));
            }
        }
        i = i + 1;
        proof {
            assert(views(ls@) =~= seq!["Checking prerequisites..."@] + checks_lines(
                checks@.subrange(0, i as int),
            ));
        }
    }
    proof {
        assert(checks@.subrange(0, i as int) =~= checks@);
    }
    if all {
        let ghost before = views(ls@);
        ls.push(Vec::new());
        ls.push(chars_of("All checks passed."));
        proof {
            assert(views(ls@) =~= before + seq![Seq::<char>::empty(), "All checks passed."@]);
        }
    } else {
        proof {
            assert(views(ls@) =~= views(ls@) + Seq::<Seq<char>>::empty());
        }
    }
    join_lines(&ls)
}

/// An entry of the `clean` summary.
pub struct CleanEntry {
    /// The original workspace path, if known.
    pub workspace: Option<String>,
    /// The mount name.
    pub mount: String,
    /// The state before cleaning.
    pub was: String,
    /// What was done.
    pub action: String,
}

/// The summary line of one cleaned entry.
pub open spec fn clean_line(e: CleanEntry) -> Seq<char> {
    let left = match e.workspace {
        Some(w) => w@ + "  \u{2192}  "@ + e.mount@,
        None => e.mount@,
    };
    "  "@ + padded(left, 52) + " was: "@ + padded(e.was@, 12) + " \u{2192} "@ + e.action@
}

/// The header of the `clean` summary.
pub open spec fn clean_header(n: nat, active_left: nat) -> Seq<char> {
    if active_left > 0 {
        "Cleaned "@ + decimal(n) + " mounts ("@ + decimal(active_left)
            + " active mounts left untouched):"@
    } else {
        "Cleaned "@ + decimal(n) + " mounts:"@
    }
}

/// The `clean` summary.
pub open spec fn clean_summary(es: Seq<CleanEntry>, active_left: nat) -> Seq<char> {
    joined(
        seq![clean_header(es.len(), active_left)] + es.map_values(|e: CleanEntry| clean_line(e)),
    )
}

/// Format the `clean` summary: a count, and one line per cleaned entry.
pub fn format_clean_summary(entries: &[CleanEntry], active_left: usize) -> (r: String)
    ensures
        r@ == clean_summary(entries@, active_left as nat),
{
    let mut head = chars_of("Cleaned ");
    push_all(&mut head, &decimal_of(entries.len()));
    if active_left > 0 {
        push_str(&mut head, " mounts (");
        push_all(&mut head, &decimal_of(active_left));
        push_str(&mut head, " active mounts left untouched):");
    } else {
        push_str(&mut head, " mounts:");
    }
    proof {
        assert(head@ =~= clean_header(entries@.len(), active_left as nat));
    }
    let mut ls: Vec<Vec<char>> = Vec::new();
    ls.push(head);
    let mut i: usize = 0;
    while i < entries.len()
        invariant
            i <= entries@.len(),
            views(ls@) == seq![clean_header(entries@.len(), active_left as nat)]
                + entries@.subrange(0, i as int).map_values(|e: CleanEntry| clean_line(e)),
        decreases entries@.len() - i,
    {
        let e = &entries[i];
        let mut left: Vec<char> = Vec::new();
        match &e.workspace {
            Some(w) => {
                push_str(&mut left, w.as_str());
                push_str(&mut left, "  \u{2192}  ");
                push_str(&mut left, e.mount.as_str());
            },
            None => {
                push_str(&mut left, e.mount.as_str());
            },
        }
        let left_s = crate::text::string_of(&left);
        let mut line = chars_of("  ");
        push_padded(&mut line, left_s.as_str(), 52);
        push_str(&mut line, " was: ");
        push_padded(&mut line, e.was.as_str(), 12);
        push_str(&mut line, " \u{2192} ");
        push_str(&mut line, e.action.as_str());
        proof {
            assert(left@ =~= match e.workspace {
                Some(w) => w@ + "  \u{2192}  "@ + e.mount@,
                None => e.mount@,
            });
            assert(line@ =~= clean_line(*e));
        }
        let ghost before = views(ls@);
        ls.push(line);
        i = i + 1;
        proof {
            assert(views(ls@) =~= before.push(clean_line(*e)));
            assert(views(ls@) =~= seq![clean_header(entries@.len(), active_left as nat)]
                + entries@.subrange(0, i as int).map_values(|e: CleanEntry| clean_line(e)));
        }
    }
    proof {
        assert(entries@.subrange(0, i as int) =~= entries@);
    }
    join_lines(&ls)
}

/// A plan for cleaning one mount, as the `--dry-run` preview shows it.
pub struct DryRunPlan {
    /// The mount name.
    pub mount_name: String,
    /// The state before cleaning.
    pub state: String,
    /// The container, if there is one.
    pub container_id: Option<String>,
    /// The runtime image reference, if there is one.
    pub runtime_image_id: Option<String>,
    /// Whether a base-image alias exists (looked for only under purge).
    pub has_base_image_tag: bool,
    /// The volumes to remove (listed only under purge).
    pub volumes: Vec<String>,
    /// Whether the mount point is mounted.
    pub is_mounted: bool,
}

/// The preview lines of the volumes `vs`.
pub open spec fn volume_lines(vs: Seq<String>) -> Seq<Seq<char>> {
    vs.map_values(|v: String| "    - Remove volume "@ + v@ + "  [purge]"@)
}

/// The preview lines of one plan that concern its container and images.
pub open spec fn plan_head(p: DryRunPlan) -> Seq<Seq<char>> {
    seq!["  "@ + p.mount_name@ + "  ("@ + p.state@ + ")"@] + match p.container_id {
        Some(c) => seq!["    - Stop and remove container "@ + c@],
        None => Seq::empty(),
    } + match p.runtime_image_id {
        Some(i) => seq!["    - Remove runtime image "@ + i@],
        None => Seq::empty(),
    } + if p.has_base_image_tag {
        seq!["    - Remove base image tag dcx-base:"@ + p.mount_name@ + "  [purge]"@]
    } else {
        Seq::empty()
    }
}

/// The preview lines of one plan that concern its volumes and its mount point.
pub open spec fn plan_tail(p: DryRunPlan) -> Seq<Seq<char>> {
    volume_lines(p.volumes@) + if p.is_mounted {
        seq!["    - Unmount bindfs"@]
    } else {
        Seq::empty()
    } + seq!["    - Remove mount directory"@]
}

/// The preview lines of one plan.
pub open spec fn plan_lines(p: DryRunPlan) -> Seq<Seq<char>> {
    plan_head(p) + plan_tail(p)
}

/// The preview lines of the plans `ps`, in order.
pub open spec fn plans_lines(ps: Seq<DryRunPlan>) -> Seq<Seq<char>>
    decreases ps.len(),
{
    if ps.len() == 0 {
        Seq::empty()
    } else {
        plans_lines(ps.drop_last()) + plan_lines(ps.last())
    }
}

/// The `clean --dry-run` preview.
pub open spec fn dry_run_preview(ps: Seq<DryRunPlan>) -> Seq<char> {
    if ps.len() == 0 {
        "Nothing to clean."@
    } else {
        joined(seq!["Would clean:"@] + plans_lines(ps))
    }
}

/// Appends the line `a` `b` to `ls`.
fn push_line(ls: &mut Vec<Vec<char>>, a: &str, b: &str)
    ensures
        views(final(ls)@) == views(old(ls)@).push(a@ + b@),
{
    let mut l = chars_of(a);
    push_str(&mut l, b);
    let ghost before = views(ls@);
    ls.push(l);
    proof {
        assert(views(ls@) =~= before.push(a@ + b@));
    }
}

/// Appends the preview lines of the plan `p` about its container and images to `ls`.
fn push_plan_head(ls: &mut Vec<Vec<char>>, p: &DryRunPlan)
    ensures
        views(final(ls)@) == views(old(ls)@) + plan_head(*p),
{
    let ghost before = views(ls@);
    let mut first = chars_of("  ");
    push_str(&mut first, p.mount_name.as_str());
    push_str(&mut first, "  (");
    push_str(&mut first, p.state.as_str());
    push_str(&mut first, ")");
    ls.push(first);
    let ghost l1 = views(ls@);
    proof {
        assert(l1 =~= before.push("  "@ + p.mount_name@ + "  ("@ + p.state@ + ")"@));
    }
    if let Some(c) = &p.container_id {
        push_line(ls, "    - Stop and remove container ", c.as_str());
    }
    let ghost l2 = views(ls@);
    proof {
        assert(l2 =~= l1 + match p.container_id {
            Some(c) => seq!["    - Stop and remove container "@ + c@],
            None => Seq::empty(),
        });
    }
    if let Some(im) = &p.runtime_image_id {
        push_line(ls, "    - Remove runtime image ", im.as_str());
    }
    let ghost l3 = views(ls@);
    proof {
        assert(l3 =~= l2 + match p.runtime_image_id {
            Some(i) => seq!["    - Remove runtime image "@ + i@],
            None => Seq::empty(),
        });
    }
    if p.has_base_image_tag {
        let mut l = chars_of("    - Remove base image tag dcx-base:");
        push_str(&mut l, p.mount_name.as_str());
        push_str(&mut l, "  [purge]");
        ls.push(l);
        proof {
            assert(l@ =~= "    - Remove base image tag dcx-base:"@ + p.mount_name@ + "  [purge]"@);
        }
    }
    proof {
        assert(views(ls@) =~= l3 + if p.has_base_image_tag {
            seq!["    - Remove base image tag dcx-base:"@ + p.mount_name@ + "  [purge]"@]
        } else {
            Seq::empty()
        });
        assert(views(ls@) =~= before + plan_head(*p));
    }
}

/// Appends the preview lines of the plan `p` about its volumes and mount point to `ls`.
fn push_plan_tail(ls: &mut Vec<Vec<char>>, p: &DryRunPlan)
    ensures
        views(final(ls)@) == views(old(ls)@) + plan_tail(*p),
{
    let ghost l4 = views(ls@);
    let mut j: usize = 0;
    while j < p.volumes.len()
        invariant
            j <= p.volumes@.len(),
            views(ls@) == l4 + volume_lines(p.volumes@.subrange(0, j as int)),
        decreases p.volumes@.len() - j,
    {
        let mut l = chars_of("    - Remove volume ");
        push_str(&mut l, p.volumes[j].as_str());
        push_str(&mut l, "  [purge]");
        let ghost b = views(ls@);
        ls.push(l);
        j = j + 1;
        proof {
            assert(views(ls@) =~= b.push(l@));
            assert(volume_lines(p.volumes@.subrange(0, j as int)) =~= volume_lines(
                p.volumes@.subrange(0, j - 1),
            ).push(l@));
        }
    }
    proof {
        assert(p.volumes@.subrange(0, j as int) =~= p.volumes@);
    }
    let ghost l5 = views(ls@);
    if p.is_mounted {
        ls.push(chars_of("    - Unmount bindfs"));
    }
    let ghost l6 = views(ls@);
    proof {
        assert(l6 =~= l5 + if p.is_mounted {
            seq!["    - Unmount bindfs"@]
        } else {
            Seq::empty()
        });
    }
    ls.push(chars_of("    - Remove mount directory"));
    proof {
        assert(views(ls@) =~= l6.push("    - Remove mount directory"@));
        assert(views(ls@) =~= l4 + plan_tail(*p));
    }
}

/// Appends the preview lines of the plan `p` to `ls`.
fn push_plan_lines(ls: &mut Vec<Vec<char>>, p: &DryRunPlan)
    ensures
        views(final(ls)@) == views(old(ls)@) + plan_lines(*p),
{
    let ghost before = views(ls@);
    push_plan_head(ls, p);
    push_plan_tail(ls, p);
    proof {
        assert(views(ls@) =~= before + plan_lines(*p));
    }
}

/// Format the `clean --dry-run` preview: for each plan, what would be done, in order.
pub fn format_dry_run(plans: &[DryRunPlan]) -> (r: String)
    ensures
        r@ == dry_run_preview(plans@),
{
    if plans.len() == 0 {
        return owned("Nothing to clean.");
    }
    let mut ls: Vec<Vec<char>> = Vec::new();
    ls.push(chars_of("Would clean:"));
    let mut i: usize = 0;
    while i < plans.len()
        invariant
            i <= plans@.len(),
            views(ls@) == seq!["Would clean:"@] + plans_lines(plans@.subrange(0, i as int)),
        decreases plans@.len() - i,
    {
        let p = &plans[i];
        proof {
            assert(plans@.subrange(0, i + 1).drop_last() =~= plans@.subrange(0, i as int));
            assert(plans@.subrange(0, i + 1).last() == plans@[i as int]);
        }
        push_plan_lines(&mut ls, p);
        i = i + 1;
        proof {
            assert(views(ls@) =~= seq!["Would clean:"@] + plans_lines(plans@.subrange(0, i as int)));
        }
    }
    proof {
        assert(plans@.subrange(0, i as int) =~= plans@);
    }
    join_lines(&ls)
}

} // verus!
