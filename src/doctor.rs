use vstd::prelude::*;

use crate::cmd::{concat, owned, succeeded, Captured};
use crate::format::DoctorCheck;
use crate::platform::{bindfs_install_hint, devcontainer_install_hint, Platform};
use crate::text::{chars_of, slice, split_chars, split_on, split_words, string_of, views, words};

verus! {

/// `s` without its leading `v`s.
pub open spec fn strip_v(s: Seq<char>) -> Seq<char>
    decreases s.len(),
{
    if s.len() > 0 && s[0] == 'v' {
        strip_v(s.drop_first())
    } else {
        s
    }
}

/// Whether `c` is trailing punctuation that a version token sheds.
pub open spec fn is_trailing_punct(c: char) -> bool {
    c == ',' || c == ';' || c == '.'
}

/// `s` without its trailing commas, semicolons and periods.
pub open spec fn strip_punct(s: Seq<char>) -> Seq<char>
    decreases s.len(),
{
    if s.len() > 0 && is_trailing_punct(s.last()) {
        strip_punct(s.drop_last())
    } else {
        s
    }
}

/// Whether `p` is a non-empty run of ASCII digits.
pub open spec fn is_number(p: Seq<char>) -> bool {
    p.len() > 0 && forall|i: int| 0 <= i < p.len() ==> '0' <= #[trigger] p[i] && p[i] <= '9'
}

/// The version that the word `w` holds, if it is one: two or more numbers joined by dots,
/// once leading `v`s and trailing punctuation are shed.
pub open spec fn version_token(w: Seq<char>) -> Option<Seq<char>> {
    let t = strip_punct(strip_v(w));
    let parts = split_on(t, '.');
    if parts.len() >= 2 && forall|i: int| 0 <= i < parts.len() ==> is_number(#[trigger] parts[i]) {
        Some(t)
    } else {
        None
    }
}

/// The first version among the words `ws`.
pub open spec fn first_version(ws: Seq<Seq<char>>) -> Option<Seq<char>>
    decreases ws.len(),
{
    if ws.len() == 0 {
        None
    } else {
        match version_token(ws[0]) {
            Some(v) => Some(v),
            None => first_version(ws.subrange(1, ws.len() as int)),
        }
    }
}

/// The version that a word holds, as `version_token` states it.
fn word_version(w: &Vec<char>) -> (r: Option<Vec<char>>)
    ensures
        match r {
            Some(v) => version_token(w@) == Some(v@),
            None => version_token(w@) is None,
        },
{
    let n = w.len();
    let mut a: usize = 0;
    proof {
        assert(w@.subrange(0, n as int) =~= w@);
    }
    while a < n && w[a] == 'v'
        invariant
            a <= n == w@.len(),
            strip_v(w@) == strip_v(w@.subrange(a as int, n as int)),
        decreases n - a,
    {
        proof {
            assert(w@.subrange(a as int, n as int).drop_first() =~= w@.subrange(a + 1, n as int));
        }
        a = a + 1;
    }
    let s = slice(w, a, n);
    proof {
        if a < n {
            assert(s@[0] != 'v');
        }
        assert(strip_v(w@) == s@);
    }
    let mut b: usize = s.len();
    proof {
        assert(s@.subrange(0, b as int) =~= s@);
    }
    while b > 0 && (s[b - 1] == ',' || s[b - 1] == ';' || s[b - 1] == '.')
        invariant
            b <= s@.len(),
            strip_punct(s@) == strip_punct(s@.subrange(0, b as int)),
        decreases b,
    {
        proof {
            assert(s@.subrange(0, b as int).drop_last() =~= s@.subrange(0, b - 1));
        }
        b = b - 1;
    }
    let t = slice(&s, 0, b);
    proof {
        if b > 0 {
            assert(!is_trailing_punct(s@[b - 1]));
            assert(s@.subrange(0, b as int).last() == s@[b - 1]);
        }
        assert(strip_punct(s@.subrange(0, b as int)) == s@.subrange(0, b as int));
        assert(t@ == strip_punct(strip_v(w@)));
    }
    let parts = split_chars(&t, '.');
    if parts.len() < 2 {
        return None;
    }
    let mut i: usize = 0;
    while i < parts.len()
        invariant
            i <= parts@.len(),
            parts@.len() >= 2,
            t@ == strip_punct(strip_v(w@)),
            views(parts@) == split_on(t@, '.'),
            forall|k: int| 0 <= k < i ==> is_number(#[trigger] views(parts@)[k]),
        decreases parts@.len() - i,
    {
        let p = &parts[i];
        proof {
            assert(views(parts@)[i as int] == p@);
        }
        if p.len() == 0 {
            proof {
                assert(!is_number(views(parts@)[i as int]));
            }
            return None;
        }
        let mut j: usize = 0;
        while j < p.len()
            invariant
                j <= p@.len(),
                i < parts@.len(),
                p@ == views(parts@)[i as int],
                views(parts@) == split_on(t@, '.'),
                t@ == strip_punct(strip_v(w@)),
                forall|q: int| 0 <= q < j ==> '0' <= #[trigger] p@[q] && p@[q] <= '9',
            decreases p@.len() - j,
        {
            if !('0' <= p[j] && p[j] <= '9') {
                proof {
                    assert(!('0' <= p@[j as int] && p@[j as int] <= '9'));
                    assert(!is_number(views(parts@)[i as int]));
                }
                return None;
            }
            j = j + 1;
        }
        i = i + 1;
    }
    Some(t)
}

/// The first version-like token of `output`: two or more dot-separated numbers, after a
/// leading `v` and trailing punctuation are shed.
pub fn parse_version_str(output: &str) -> (r: Option<String>)
    ensures
        match r {
            Some(v) => first_version(words(output@)) == Some(v@),
            None => first_version(words(output@)) is None,
        },
{
    let ws = split_words(&chars_of(output));
    let ghost all = views(ws@);
    let mut i: usize = 0;
    proof {
        assert(all.subrange(0, all.len() as int) =~= all);
    }
    while i < ws.len()
        invariant
            i <= ws@.len() == all.len(),
            all == views(ws@),
            all == words(output@),
            first_version(all) == first_version(all.subrange(i as int, all.len() as int)),
        decreases ws@.len() - i,
    {
        let ghost rest = all.subrange(i as int, all.len() as int);
        proof {
            assert(rest.subrange(1, rest.len() as int) =~= all.subrange(i + 1, all.len() as int));
            assert(rest[0] == ws@[i as int]@);
        }
        if let Some(v) = word_version(&ws[i]) {
            return Some(string_of(&v));
        }
        i = i + 1;
    }
    None
}

/// The version a tool reported: read from its stdout, else from its stderr.
pub open spec fn reported_version(out: &Captured) -> Option<Seq<char>> {
    match out {
        Ok(o) => match first_version(words(o.stdout@)) {
            Some(v) => Some(v),
            None => first_version(words(o.stderr@)),
        },
        Err(_) => None,
    }
}

/// The version a tool reported, as `reported_version` states it.
fn version_from(out: &Captured) -> (r: Option<String>)
    ensures
        crate::up::opt_string_view(&r) == reported_version(out),
{
    match out {
        Ok(o) => match parse_version_str(o.stdout.as_str()) {
            Some(v) => Some(v),
            None => parse_version_str(o.stderr.as_str()),
        },
        Err(_) => None,
    }
}

/// What a check says, over views.
pub open spec fn check_view(c: &DoctorCheck) -> (Seq<char>, bool, Option<Seq<char>>) {
    (c.name@, c.passed, crate::up::opt_string_view(&c.detail))
}

/// The check of an installed tool: passed with the version it reports, or failed with how
/// to install it.
pub open spec fn tool_check(name: Seq<char>, installed: bool, version: &Captured, hint: Seq<char>) -> (
    Seq<char>,
    bool,
    Option<Seq<char>>,
) {
    if installed {
        (name, true, reported_version(version))
    } else {
        (name, false, Some(hint))
    }
}

/// The check that the bind-mount provider is installed, given whether it was found and
/// what `bindfs --version` did.
pub fn check_bindfs(platform: Platform, installed: bool, version: &Captured) -> (r: DoctorCheck)
    ensures
        check_view(&r) == tool_check(
            "bindfs installed"@,
            installed,
            version,
            crate::platform::bindfs_hint_of(platform),
        ),
{
    if !installed {
        return DoctorCheck {
            name: owned("bindfs installed"),
            passed: false,
            detail: Some(owned(bindfs_install_hint(platform))),
        };
    }
    DoctorCheck { name: owned("bindfs installed"), passed: true, detail: version_from(version) }
}

/// The check that the orchestrator CLI is installed, given whether it was found and what
/// `devcontainer --version` did.
pub fn check_devcontainer(installed: bool, version: &Captured) -> (r: DoctorCheck)
    ensures
        check_view(&r) == tool_check(
            "devcontainer CLI installed"@,
            installed,
            version,
            "npm install -g @devcontainers/cli"@,
        ),
{
    if !installed {
        return DoctorCheck {
            name: owned("devcontainer CLI installed"),
            passed: false,
            detail: Some(owned(devcontainer_install_hint())),
        };
    }
    DoctorCheck {
        name: owned("devcontainer CLI installed"),
        passed: true,
        detail: version_from(version),
    }
}

/// The check that the container engine answers, given what `docker info` did.
pub fn check_docker(info: &Captured) -> (r: DoctorCheck)
    ensures
        check_view(&r) == if succeeded(info) {
            ("Docker available"@, true, first_version(words(info->Ok_0.stdout@)))
        } else {
            ("Docker available"@, false, Some("Is Docker/Colima running?"@))
        },
{
    match info {
        Ok(o) => {
            if o.status == 0 {
                return DoctorCheck {
                    name: owned("Docker available"),
                    passed: true,
                    detail: parse_version_str(o.stdout.as_str()),
                };
            }
        },
        Err(_) => {},
    }
    DoctorCheck {
        name: owned("Docker available"),
        passed: false,
        detail: Some(owned("Is Docker/Colima running?")),
    }
}

/// The check that the VM runs, given what `colima status` did.
pub fn check_colima(status: &Captured) -> (r: DoctorCheck)
    ensures
        check_view(&r) == if succeeded(status) {
            ("Colima running"@, true, reported_version(status))
        } else {
            ("Colima running"@, false, Some("Run: colima start"@))
        },
{
    if crate::docker::is_docker_available(status) {
        return DoctorCheck {
            name: owned("Colima running"),
            passed: true,
            detail: version_from(status),
        };
    }
    DoctorCheck {
        name: owned("Colima running"),
        passed: false,
        detail: Some(owned("Run: colima start")),
    }
}

/// The check that the unmount program is installed.
pub fn check_unmount_tool(found: bool) -> (r: DoctorCheck)
    ensures
        check_view(&r) == ("Unmount tool available"@, found, None::<Seq<char>>),
{
    DoctorCheck { name: owned("Unmount tool available"), passed: found, detail: None }
}

/// The check that the relay directory exists on the host, given whether it does.
pub fn check_relay_exists(home: &str, exists: bool) -> (r: DoctorCheck)
    ensures
        check_view(&r) == (
            "~/.colima-mounts exists on host"@,
            exists,
            if exists {
                None
            } else {
                Some("Run: mkdir -p "@ + crate::naming::relay_of(home@))
            },
        ),
{
    let detail = if exists {
        None
    } else {
        Some(concat("Run: mkdir -p ", crate::naming::relay_dir(home).as_str()))
    };
    DoctorCheck { name: owned("~/.colima-mounts exists on host"), passed: exists, detail }
}

/// The check that the relay directory is visible and writable in the VM, given whether
/// listing it there and writing a file in it succeeded.
pub fn check_relay_in_vm(listed: bool, writable: bool) -> (r: DoctorCheck)
    ensures
        check_view(&r) == if !listed {
            (
                "~/.colima-mounts mounted in VM (writable)"@,
                false,
                Some(
                    "Add ~/.colima-mounts to Colima mounts in colima.yaml and run: colima start"@,
                ),
            )
        } else {
            (
                "~/.colima-mounts mounted in VM (writable)"@,
                writable,
                if writable {
                    None
                } else {
                    Some("Check Colima mount permissions for ~/.colima-mounts"@)
                },
            )
        },
{
    if !listed {
        return DoctorCheck {
            name: owned("~/.colima-mounts mounted in VM (writable)"),
            passed: false,
            detail: Some(
                owned("Add ~/.colima-mounts to Colima mounts in colima.yaml and run: colima start"),
            ),
        };
    }
    DoctorCheck {
        name: owned("~/.colima-mounts mounted in VM (writable)"),
        passed: writable,
        detail: if writable {
            None
        } else {
            Some(owned("Check Colima mount permissions for ~/.colima-mounts"))
        },
    }
}

} // verus!
