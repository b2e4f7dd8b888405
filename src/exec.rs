use vstd::prelude::*;

use crate::cmd::{concat, owned, str_views};
use crate::engine::{
    begin_of, engine_down, engine_down_text, fail, recursion_refused, recursion_text, Begin,
    Start,
};
use crate::exit_codes::{RUNTIME_ERROR, USAGE_ERROR};
use crate::mount_table::{entry_views, find_mount_source, source_at, MountEntry};
use crate::naming::{
    is_dcx_managed_path, is_managed, join_path, mount_name, mount_name_of, mount_point_of,
    relay_dir, relay_of,
};
use crate::text::{chars_of, push_all, push_str, string_of};
use crate::up::{opt_str_view, resolved_view};

verus! {

/// The error of `exec` when the workspace has no mount.
pub open spec fn no_mount_text(workspace: Seq<char>) -> Seq<char> {
    "No mount found for "@ + workspace + ". Run `dcx up` first."@
}

/// The error of `exec` when the workspace has no mount.
pub fn no_mount_error(workspace: &str) -> (r: String)
    ensures
        r@ == no_mount_text(workspace@),
{
    concat(concat("No mount found for ", workspace).as_str(), ". Run `dcx up` first.")
}

/// The error of `exec` when the mount is listed but cannot be reached.
pub open spec fn stale_mount_text() -> Seq<char> {
    "Mount is stale. Run `dcx up` to remount."@
}

/// The error of `exec` when the mount is listed but cannot be reached.
pub fn stale_mount_error() -> (r: &'static str)
    ensures
        r@ == stale_mount_text(),
{
    "Mount is stale. Run `dcx up` to remount."
}

/// The error of `exec` when the mount table has no entry for the mount point: a leftover
/// directory means the mount went stale, none means `up` never ran.
pub fn mount_not_found_error(workspace: &str, mount_dir_exists: bool) -> (r: String)
    ensures
        r@ == if mount_dir_exists {
            stale_mount_text()
        } else {
            no_mount_text(workspace@)
        },
{
    if mount_dir_exists {
        owned(stale_mount_error())
    } else {
        no_mount_error(workspace)
    }
}

/// The arguments of the orchestrator's `exec`.
pub open spec fn exec_args_of(
    container_id: Seq<char>,
    workspace: Seq<char>,
    config: Option<Seq<char>>,
    override_config: Option<Seq<char>>,
    command: Seq<Seq<char>>,
) -> Seq<Seq<char>> {
    seq!["exec"@, "--container-id"@, container_id, "--workspace-folder"@, workspace] + match override_config {
        Some(o) => seq!["--override-config"@, o],
        None => Seq::empty(),
    } + match config {
        Some(c) => seq!["--config"@, c],
        None => Seq::empty(),
    } + if command.len() > 0 {
        seq!["--"@] + command
    } else {
        Seq::empty()
    }
}

/// Build the arguments of the orchestrator's `exec`: the container, the original
/// workspace folder, the override and explicit configurations if any, then `--` and the
/// command if there is one.
pub fn build_exec_args(
    container_id: &str,
    workspace_path: &str,
    config: Option<&str>,
    override_config_path: Option<&str>,
    command: &[String],
) -> (r: Vec<String>)
    ensures
        str_views(r@) == exec_args_of(
            container_id@,
            workspace_path@,
            opt_str_view(config),
            opt_str_view(override_config_path),
            str_views(command@),
        ),
{
    let mut args: Vec<String> = vec![
        owned("exec"),
        owned("--container-id"),
        owned(container_id),
        owned("--workspace-folder"),
        owned(workspace_path),
    ];
    let ghost a1 = str_views(args@);
    if let Some(oc) = override_config_path {
        args.push(owned("--override-config"));
        args.push(owned(oc));
    }
    let ghost a2 = str_views(args@);
    if let Some(cfg) = config {
        args.push(owned("--config"));
        args.push(owned(cfg));
    }
    let ghost a3 = str_views(args@);
    proof {
        assert(a1 =~= seq!["exec"@, "--container-id"@, container_id@, "--workspace-folder"@, workspace_path@]);
        assert(a2 =~= a1 + match opt_str_view(override_config_path) {
            Some(o) => seq!["--override-config"@, o],
            None => Seq::empty(),
        });
        assert(a3 =~= a2 + match opt_str_view(config) {
            Some(c) => seq!["--config"@, c],
            None => Seq::empty(),
        });
    }
    if command.len() > 0 {
        args.push(owned("--"));
        let ghost a4 = str_views(args@);
        let mut i: usize = 0;
        while i < command.len()
            invariant
                i <= command@.len(),
                str_views(args@) == a4 + str_views(command@).subrange(0, i as int),
            decreases command@.len() - i,
        {
            let ghost b = str_views(args@);
            args.push(command[i].clone());
            i = i + 1;
            proof {
                assert(str_views(args@) =~= b.push(command@[i - 1]@));
                assert(str_views(args@) =~= a4 + str_views(command@).subrange(0, i as int));
            }
        }
        proof {
            assert(str_views(command@).subrange(0, i as int) =~= str_views(command@));
            assert(str_views(args@) =~= a3 + (seq!["--"@] + str_views(command@)));
        }
    } else {
        proof {
            assert(a3 =~= a3 + Seq::<Seq<char>>::empty());
        }
    }
    args
}

/// The JSON escape of one character.
pub open spec fn escape_char(c: char) -> Seq<char> {
    if c == '\\' {
        seq!['\\', '\\']
    } else if c == '"' {
        seq!['\\', '"']
    } else if c == '\n' {
        seq!['\\', 'n']
    } else if c == '\r' {
        seq!['\\', 'r']
    } else if c == '\t' {
        seq!['\\', 't']
    } else {
        seq![c]
    }
}

/// `s` with backslash, quote, newline, carriage return and tab escaped for JSON.
pub open spec fn json_escaped(s: Seq<char>) -> Seq<char>
    decreases s.len(),
{
    if s.len() == 0 {
        Seq::empty()
    } else {
        json_escaped(s.drop_last()) + escape_char(s.last())
    }
}

/// Escape `s` for use inside a JSON string.
pub fn json_escape(s: &str) -> (r: String)
    ensures
        r@ == json_escaped(s@),
{
    let cs = chars_of(s);
    let mut out: Vec<char> = Vec::new();
    let mut i: usize = 0;
    while i < cs.len()
        invariant
            i <= cs@.len(),
            cs@ == s@,
            out@ == json_escaped(cs@.subrange(0, i as int)),
        decreases cs@.len() - i,
    {
        let c = cs[i];
        proof {
            assert(cs@.subrange(0, i + 1).drop_last() =~= cs@.subrange(0, i as int));
        }
        let ghost before = out@;
        if c == '\\' {
            out.push('\\');
            out.push('\\');
        } else if c == '"' {
            out.push('\\');
            out.push('"');
        } else if c == '\n' {
            out.push('\\');
            out.push('n');
        } else if c == '\r' {
            out.push('\\');
            out.push('r');
        } else if c == '\t' {
            out.push('\\');
            out.push('t');
        } else {
            out.push(c);
        }
        i = i + 1;
        proof {
            assert(out@ =~= before + escape_char(c));
        }
    }
    proof {
        assert(cs@.subrange(0, i as int) =~= cs@);
    }
    string_of(&out)
}

/// The two override fields that remap the workspace to its original path.
pub open spec fn override_fields(relay: Seq<char>, workspace: Seq<char>) -> Seq<char> {
    "  \"workspaceMount\": \"source="@ + json_escaped(relay) + ",target="@ + json_escaped(workspace)
        + ",type=bind,consistency=delegated\",\n  \"workspaceFolder\": \""@ + json_escaped(
        workspace,
    ) + "\"\n}\n"@
}

/// The standalone override configuration.
pub open spec fn override_config_text(relay: Seq<char>, workspace: Seq<char>) -> Seq<char> {
    "{\n"@ + override_fields(relay, workspace)
}

/// The override fields, with the mount point `relay_path` and the workspace escaped.
fn fields(relay_path: &str, workspace: &str) -> (r: Vec<char>)
    ensures
        r@ == override_fields(relay_path@, workspace@),
{
    let rs = json_escape(relay_path);
    let ws = json_escape(workspace);
    let mut v = chars_of("  \"workspaceMount\": \"source=");
    push_str(&mut v, rs.as_str());
    push_str(&mut v, ",target=");
    push_str(&mut v, ws.as_str());
    push_str(&mut v, ",type=bind,consistency=delegated\",\n  \"workspaceFolder\": \"");
    push_str(&mut v, ws.as_str());
    push_str(&mut v, "\"\n}\n");
    proof {
        assert(v@ =~= override_fields(relay_path@, workspace@));
    }
    v
}

/// Generate the standalone override configuration that maps the workspace folder and
/// mount back to the original workspace path.
pub fn generate_override_config(relay_path: &str, original_path: &str) -> (r: String)
    ensures
        r@ == override_config_text(relay_path@, original_path@),
{
    let mut v = chars_of("{\n");
    let f = fields(relay_path, original_path);
    push_all(&mut v, &f);
    string_of(&v)
}

/// Position of the last `c` in `s`, if any.
pub open spec fn last_index(s: Seq<char>, c: char) -> Option<int>
    decreases s.len(),
{
    if s.len() == 0 {
        None
    } else if s.last() == c {
        Some(s.len() - 1)
    } else {
        last_index(s.drop_last(), c)
    }
}

/// The merged override configuration: the base configuration, without its comments and
/// its closing brace, followed by the override fields; the standalone one when the base
/// has no closing brace.
pub open spec fn merged_config_text(base: Seq<char>, relay: Seq<char>, workspace: Seq<char>) -> Seq<
    char,
> {
    let clean = crate::text::trim(crate::jsonc::stripped(base));
    match last_index(clean, '}') {
        None => override_config_text(relay, workspace),
        Some(k) => {
            let before = crate::text::trim_end(clean.subrange(0, k));
            let needs_comma = before.len() > 0 && before.last() != ',' && before != "{"@;
            before + if needs_comma {
                ",\n"@
            } else {
                "\n"@
            } + override_fields(relay, workspace)
        },
    }
}

/// Generate the override configuration by adding the workspace fields to the base
/// configuration before its closing brace.
pub fn generate_merged_override_config(base_jsonc: &str, relay_path: &str, workspace: &str) -> (r:
    String)
    ensures
        r@ == merged_config_text(base_jsonc@, relay_path@, workspace@),
{
    let stripped = crate::jsonc::strip_jsonc_comments(base_jsonc);
    let clean = crate::text::trim_chars(&chars_of(stripped.as_str()));
    let mut k: usize = clean.len();
    proof {
        assert(clean@.subrange(0, clean@.len() as int) =~= clean@);
    }
    while k > 0 && clean[k - 1] != '}'
        invariant
            k <= clean@.len(),
            last_index(clean@, '}') == last_index(clean@.subrange(0, k as int), '}'),
        decreases k,
    {
        proof {
            assert(clean@.subrange(0, k as int).drop_last() =~= clean@.subrange(0, k - 1));
        }
        k = k - 1;
    }
    if k == 0 {
        return generate_override_config(relay_path, workspace);
    }
    let last = k - 1;
    let head = crate::text::slice(&clean, 0, last);
    let mut b: usize = head.len();
    proof {
        assert(head@.subrange(0, head@.len() as int) =~= head@);
    }
    while b > 0 && crate::text::space(head[b - 1])
        invariant
            b <= head@.len(),
            crate::text::trim_end(head@) == crate::text::trim_end(head@.subrange(0, b as int)),
        decreases b,
    {
        proof {
            assert(head@.subrange(0, b as int).drop_last() =~= head@.subrange(0, b - 1));
        }
        b = b - 1;
    }
    let before = crate::text::slice(&head, 0, b);
    let open = chars_of("{");
    let needs_comma = before.len() > 0 && before[before.len() - 1] != ','
        && !crate::mount_table::same_chars(&before, &open);
    let mut out = crate::text::slice(&before, 0, before.len());
    if needs_comma {
        push_str(&mut out, ",\n");
    } else {
        push_str(&mut out, "\n");
    }
    let f = fields(relay_path, workspace);
    push_all(&mut out, &f);
    proof {
        assert(before@.subrange(0, before@.len() as int) =~= before@);
    }
    string_of(&out)
}

/// What `exec` begins with, as `exec_start` decides it.
pub open spec fn exec_begin_of(
    available: bool,
    workspace: Result<Seq<char>, Seq<char>>,
    home: Seq<char>,
    table: Seq<(Seq<char>, Seq<char>)>,
    mount_exists: bool,
    has_container: bool,
) -> Begin {
    if !available {
        Begin::Exit { code: RUNTIME_ERROR, message: engine_down_text(), to_stdout: false }
    } else {
        match workspace {
            Err(e) => Begin::Exit { code: USAGE_ERROR, message: e, to_stdout: false },
            Ok(w) => if is_managed(w, relay_of(home)) {
                Begin::Exit { code: USAGE_ERROR, message: recursion_text(), to_stdout: false }
            } else if source_at(table, mount_point_of(relay_of(home), w)) is None {
                Begin::Exit {
                    code: RUNTIME_ERROR,
                    message: if mount_exists {
                        stale_mount_text()
                    } else {
                        no_mount_text(w)
                    },
                    to_stdout: false,
                }
            } else if !mount_exists {
                Begin::Exit { code: RUNTIME_ERROR, message: stale_mount_text(), to_stdout: false }
            } else if !has_container {
                Begin::Exit {
                    code: RUNTIME_ERROR,
                    message: "No running devcontainer found for this workspace. Run `dcx up` first."@,
                    to_stdout: false,
                }
            } else {
                Begin::Proceed {
                    name: mount_name_of(w),
                    mount_point: mount_point_of(relay_of(home), w),
                }
            },
        }
    }
}

/// Decide how `exec` begins: the engine must be reachable, the workspace resolved and
/// outside the managed mounts, its mount listed and reachable, and its container running.
pub fn exec_start(
    available: bool,
    workspace: &Result<String, String>,
    home: &str,
    table: &[MountEntry],
    mount_exists: bool,
    has_container: bool,
) -> (r: Start)
    ensures
        begin_of(&r) == exec_begin_of(
            available,
            resolved_view(workspace),
            home@,
            entry_views(table@),
            mount_exists,
            has_container,
        ),
{
    if !available {
        return engine_down();
    }
    let w = match workspace {
        Err(e) => {
            return fail(USAGE_ERROR, e.as_str());
        },
        Ok(w) => w,
    };
    let relay = relay_dir(home);
    if is_dcx_managed_path(w.as_str(), relay.as_str()) {
        return recursion_refused();
    }
    let name = mount_name(w.as_str());
    let mount_point = join_path(relay.as_str(), name.as_str());
    if find_mount_source(table, mount_point.as_str()).is_none() {
        return fail(RUNTIME_ERROR, mount_not_found_error(w.as_str(), mount_exists).as_str());
    }
    if !mount_exists {
        return fail(RUNTIME_ERROR, stale_mount_error());
    }
    if !has_container {
        return fail(
            RUNTIME_ERROR,
            "No running devcontainer found for this workspace. Run `dcx up` first.",
        );
    }
    Start::Proceed { name, mount_point }
}

} // verus!
