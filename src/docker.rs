use vstd::prelude::*;

use crate::cmd::{concat, owned, str_views, succeeded, Captured};
use crate::text::{
    before_char, chars_of, ends_with, find, find_char_from, find_sub, has_prefix, has_suffix,
    lines, push_str, slice, split_lines, split_words, starts_with, string_of, trim, trim_chars,
    views, words,
};

verus! {

/// The repository part of an image reference: what precedes its first `:`.
pub open spec fn repo_of(tag: Seq<char>) -> Seq<char> {
    before_char(tag, ':')
}

/// Whether `tag` names a runtime image: a `vsc-*-uid` repository.
pub open spec fn is_runtime_tag(tag: Seq<char>) -> bool {
    has_prefix(repo_of(tag), "vsc-"@) && has_suffix(repo_of(tag), "-uid"@)
}

/// Whether `tag` names a build image: a `vsc-*` repository without the `-uid` suffix.
pub open spec fn is_build_tag(tag: Seq<char>) -> bool {
    has_prefix(repo_of(tag), "vsc-"@) && !has_suffix(repo_of(tag), "-uid"@)
}

/// The characters of `v` before its first `c`, as `before_char` states them.
fn before(v: &Vec<char>, c: char) -> (r: Vec<char>)
    ensures
        r@ == before_char(v@, c),
{
    proof {
        assert(v@.subrange(0, v@.len() as int) =~= v@);
    }
    match find_char_from(v, c, 0) {
        Some(i) => slice(v, 0, i),
        None => slice(v, 0, v.len()),
    }
}

/// Whether the repository of `tag` ends with `-uid`.
fn repo_has_uid(tag: &str) -> (r: bool)
    ensures
        r == has_suffix(repo_of(tag@), "-uid"@),
{
    let repo = before(&chars_of(tag), ':');
    ends_with(&repo, &chars_of("-uid"))
}

/// Whether `tag` names a runtime image (`vsc-*-uid`, with or without a `:tag`).
pub fn is_runtime_image_tag(name: &str) -> (r: bool)
    ensures
        r == is_runtime_tag(name@),
{
    let repo = before(&chars_of(name), ':');
    starts_with(&repo, &chars_of("vsc-")) && ends_with(&repo, &chars_of("-uid"))
}

/// Whether `tag` names a build image (`vsc-*` without `-uid`, with or without a `:tag`).
pub fn is_build_image_tag(name: &str) -> (r: bool)
    ensures
        r == is_build_tag(name@),
{
    let repo = before(&chars_of(name), ':');
    starts_with(&repo, &chars_of("vsc-")) && !ends_with(&repo, &chars_of("-uid"))
}

/// The first of `tags` whose repository ends with `-uid`, if any.
pub open spec fn first_uid_tag(tags: Seq<Seq<char>>) -> Option<int>
    decreases tags.len(),
{
    if tags.len() == 0 {
        None
    } else if has_suffix(repo_of(tags[0]), "-uid"@) {
        Some(0)
    } else {
        match first_uid_tag(tags.subrange(1, tags.len() as int)) {
            Some(i) => Some(i + 1),
            None => None,
        }
    }
}

/// The views of a slice of string slices.
pub open spec fn slice_views(v: Seq<&str>) -> Seq<Seq<char>> {
    v.map_values(|s: &str| s@)
}

/// Among repository tags, the one of the runtime (`-uid`) image, if any.
pub fn find_uid_tag<'a>(tags: &[&'a str]) -> (r: Option<&'a str>)
    ensures
        match first_uid_tag(slice_views(tags@)) {
            Some(i) => r == Some(tags@[i]),
            None => r is None,
        },
{
    let ghost all = slice_views(tags@);
    let mut i: usize = 0;
    proof {
        assert(all.subrange(0, all.len() as int) =~= all);
    }
    while i < tags.len()
        invariant
            i <= tags@.len() == all.len(),
            all == slice_views(tags@),
            first_uid_tag(all) == (match first_uid_tag(all.subrange(i as int, all.len() as int)) {
                Some(k) => Some(k + i),
                None => None::<int>,
            }),
        decreases tags@.len() - i,
    {
        let ghost rest = all.subrange(i as int, all.len() as int);
        proof {
            assert(rest.subrange(1, rest.len() as int) =~= all.subrange(i + 1, all.len() as int));
            assert(rest[0] == tags@[i as int]@);
        }
        let t: &'a str = tags[i];
        if repo_has_uid(t) {
            return Some(t);
        }
        i = i + 1;
    }
    None
}

/// The runtime image name that belongs to a build image: `-uid` goes after the repository.
pub open spec fn runtime_name_of(build: Seq<char>) -> Seq<char> {
    match crate::text::first_index(build, ':') {
        Some(i) => build.subrange(0, i) + "-uid"@ + build.subrange(i, build.len() as int),
        None => build + "-uid"@,
    }
}

/// The runtime image name that belongs to the build image `build_image`.
pub fn build_image_to_runtime_image(build_image: &str) -> (r: String)
    ensures
        r@ == runtime_name_of(build_image@),
{
    let v = chars_of(build_image);
    proof {
        assert(v@.subrange(0, v@.len() as int) =~= v@);
    }
    match find_char_from(&v, ':', 0) {
        Some(i) => {
            let mut out = slice(&v, 0, i);
            push_str(&mut out, "-uid");
            crate::text::push_all(&mut out, &slice(&v, i, v.len()));
            string_of(&out)
        },
        None => concat(build_image, "-uid"),
    }
}

/// The first line of `s`, or nothing when `s` is empty.
pub open spec fn first_line(s: Seq<char>) -> Seq<char> {
    if lines(s).len() > 0 {
        lines(s)[0]
    } else {
        Seq::empty()
    }
}

/// The container ID that a listing reports first, if it reports any.
pub open spec fn listed_id(out: &Captured) -> Option<Seq<char>> {
    match out {
        Ok(o) => if trim(first_line(o.stdout@)).len() > 0 {
            Some(trim(first_line(o.stdout@)))
        } else {
            None
        },
        Err(_) => None,
    }
}

/// The first line of a listing, trimmed, if it is not empty.
fn first_listed_id(out: &Captured) -> (r: Option<String>)
    ensures
        match r {
            Some(id) => listed_id(out) == Some(id@),
            None => listed_id(out) is None,
        },
{
    match out {
        Ok(o) => {
            let ls = split_lines(&chars_of(o.stdout.as_str()));
            let line = if ls.len() > 0 {
                proof {
                    assert(views(ls@)[0] == ls@[0]@);
                }
                trim_chars(&ls[0])
            } else {
                proof {
                    assert(trim(Seq::<char>::empty()) =~= Seq::<char>::empty());
                }
                Vec::new()
            };
            if line.len() == 0 {
                None
            } else {
                Some(string_of(&line))
            }
        },
        Err(_) => None,
    }
}

/// The filter that selects the containers of the workspace folder `mount_point`.
pub open spec fn label_filter(mount_point: Seq<char>) -> Seq<char> {
    "label=devcontainer.local_folder="@ + mount_point
}

/// The arguments of `docker ps` that list the containers of `mount_point`; with `all`,
/// stopped ones too.
pub open spec fn ps_args_of(mount_point: Seq<char>, all: bool) -> Seq<Seq<char>> {
    if all {
        seq!["ps"@, "-a"@, "--filter"@, label_filter(mount_point), "--format"@, "{{.ID}}"@]
    } else {
        seq!["ps"@, "--filter"@, label_filter(mount_point), "--format"@, "{{.ID}}"@]
    }
}

/// Arguments of `docker ps` that list the containers of `mount_point`; with `all`,
/// stopped ones too.
pub fn container_query_args(mount_point: &str, all: bool) -> (r: Vec<String>)
    ensures
        str_views(r@) == ps_args_of(mount_point@, all),
{
    let mut r: Vec<String> = Vec::new();
    r.push(owned("ps"));
    if all {
        r.push(owned("-a"));
    }
    r.push(owned("--filter"));
    r.push(concat("label=devcontainer.local_folder=", mount_point));
    r.push(owned("--format"));
    r.push(owned("{{.ID}}"));
    proof {
        assert(str_views(r@) =~= ps_args_of(mount_point@, all));
    }
    r
}

/// Arguments of `docker info`, which tells whether the engine is reachable.
pub fn availability_args() -> (r: Vec<String>)
    ensures
        str_views(r@) == seq!["info"@],
{
    let r = vec![owned("info")];
    proof {
        assert(str_views(r@) =~= seq!["info"@]);
    }
    r
}

/// Whether the engine is reachable, given what `docker info` did.
pub fn is_docker_available(info: &Captured) -> (r: bool)
    ensures
        r == succeeded(info),
{
    match info {
        Ok(o) => o.status == 0,
        Err(_) => false,
    }
}

/// The running container of a workspace, given what `docker ps` listed for it.
pub fn query_container(ps: &Captured) -> (r: Option<String>)
    ensures
        match r {
            Some(id) => listed_id(ps) == Some(id@),
            None => listed_id(ps) is None,
        },
{
    first_listed_id(ps)
}

/// Any container of a workspace, running or stopped, given what `docker ps -a` listed.
pub fn query_container_any(ps: &Captured) -> (r: Option<String>)
    ensures
        match r {
            Some(id) => listed_id(ps) == Some(id@),
            None => listed_id(ps) is None,
        },
{
    first_listed_id(ps)
}

/// The running devcontainer of a relay mount point, given what `docker ps` listed.
pub fn find_devcontainer_by_workspace(ps: &Captured) -> (r: Option<String>)
    ensures
        match r {
            Some(id) => listed_id(ps) == Some(id@),
            None => listed_id(ps) is None,
        },
{
    first_listed_id(ps)
}

/// The error that a failed command leaves: its spawn error, or `prefix` and its stderr.
pub open spec fn failure(out: &Captured, prefix: Seq<char>) -> Option<Seq<char>> {
    match out {
        Err(e) => Some(e@),
        Ok(o) => if o.status != 0 {
            Some(prefix + trim(o.stderr@))
        } else {
            None
        },
    }
}

/// `Ok` when the command succeeded, else the error that `failure` gives.
pub open spec fn checked(r: Result<(), String>, out: &Captured, prefix: Seq<char>) -> bool {
    match failure(out, prefix) {
        None => r is Ok,
        Some(m) => r matches Err(e) && e@ == m,
    }
}

/// `Ok` when the command succeeded, else its spawn error or `prefix` with its stderr.
fn check(out: &Captured, prefix: &str) -> (r: Result<(), String>)
    ensures
        checked(r, out, prefix@),
{
    match out {
        Err(e) => Err(e.clone()),
        Ok(o) => {
            if o.status != 0 {
                let err = trim_chars(&chars_of(o.stderr.as_str()));
                let mut m = chars_of(prefix);
                crate::text::push_all(&mut m, &err);
                Err(string_of(&m))
            } else {
                Ok(())
            }
        },
    }
}

/// The `docker stop` arguments for the running container `running`, if there is one.
pub open spec fn stop_plan(running: Option<Seq<char>>) -> Option<Seq<Seq<char>>> {
    match running {
        None => None,
        Some(id) => Some(seq!["stop"@, id]),
    }
}

/// The view of an optional string.
pub open spec fn opt_view(o: Option<String>) -> Option<Seq<char>> {
    match o {
        Some(s) => Some(s@),
        None => None,
    }
}

/// Arguments of `docker stop` for the running container `running`, if there is one.
///
/// With no running container there is nothing to stop, and stopping succeeds as it is.
pub fn stop_container_args(running: &Option<String>) -> (r: Option<Vec<String>>)
    ensures
        match r {
            Some(a) => stop_plan(opt_view(*running)) == Some(str_views(a@)),
            None => stop_plan(opt_view(*running)) is None,
        },
{
    match running {
        None => None,
        Some(id) => {
            let a = vec![owned("stop"), id.clone()];
            proof {
                assert(str_views(a@) =~= seq!["stop"@, id@]);
            }
            Some(a)
        },
    }
}

/// The outcome of stopping a workspace's container, given the running container found
/// (if any) and what the `docker stop` of `stop_plan` did (if it ran).
pub open spec fn stop_outcome(
    running: Option<Seq<char>>,
    stop: Option<Captured>,
    r: Result<(), String>,
) -> bool {
    match running {
        None => r is Ok,
        Some(_) => match stop {
            Some(out) => checked(r, &out, "Failed to stop container: "@),
            None => r matches Err(e) && e@ == "Failed to stop container: docker stop was not run"@,
        },
    }
}

/// Whether the workspace's container is stopped, given the running container found (if
/// any) and what its `docker stop` did (if it ran): with none running there is nothing
/// to do and stopping succeeds.
pub fn stop_container(running: &Option<String>, stop: &Option<Captured>) -> (r: Result<(), String>)
    ensures
        stop_outcome(opt_view(*running), *stop, r),
{
    match running {
        None => Ok(()),
        Some(_) => match stop {
            Some(out) => check(out, "Failed to stop container: "),
            None => Err(owned("Failed to stop container: docker stop was not run")),
        },
    }
}

/// Whether the container was removed, given what `docker rm <id>` did.
pub fn remove_container(rm: &Captured) -> (r: Result<(), String>)
    ensures
        checked(r, rm, "Failed to remove container: "@),
{
    check(rm, "Failed to remove container: ")
}

/// The image ID that inspecting a container reported.
pub open spec fn image_id_of(out: &Captured) -> Result<Seq<char>, Seq<char>> {
    match failure(out, "Failed to inspect container: "@) {
        Some(m) => Err(m),
        None => {
            let id = trim(out->Ok_0.stdout@);
            if id.len() == 0 {
                Err("Could not determine image ID from container"@)
            } else {
                Ok(id)
            }
        },
    }
}

/// The image ID of a container, given what `docker inspect --format={{.Image}}` did.
pub fn get_image_id(inspect: &Captured) -> (r: Result<String, String>)
    ensures
        match r {
            Ok(id) => image_id_of(inspect) == Ok::<Seq<char>, Seq<char>>(id@),
            Err(e) => image_id_of(inspect) == Err::<Seq<char>, Seq<char>>(e@),
        },
{
    match check(inspect, "Failed to inspect container: ") {
        Err(e) => Err(e),
        Ok(()) => {
            let o = match inspect {
                Ok(o) => o,
                Err(_) => {
                    return Err(owned("unreachable"));
                },
            };
            let id = trim_chars(&chars_of(o.stdout.as_str()));
            if id.len() == 0 {
                Err(owned("Could not determine image ID from container"))
            } else {
                Ok(string_of(&id))
            }
        },
    }
}

/// The trimmed, non-empty lines of `ls`, in order.
pub open spec fn kept_lines(ls: Seq<Seq<char>>) -> Seq<Seq<char>>
    decreases ls.len(),
{
    if ls.len() == 0 {
        Seq::empty()
    } else {
        let prev = kept_lines(ls.drop_last());
        if trim(ls.last()).len() > 0 {
            prev.push(trim(ls.last()))
        } else {
            prev
        }
    }
}

/// The trimmed, non-empty lines of `s`.
pub open spec fn listed(s: Seq<char>) -> Seq<Seq<char>> {
    kept_lines(lines(s))
}

/// The trimmed, non-empty lines of `s`, as `listed` states them.
pub fn listed_lines(s: &str) -> (r: Vec<String>)
    ensures
        str_views(r@) == listed(s@),
{
    let ls = split_lines(&chars_of(s));
    let mut r: Vec<String> = Vec::new();
    let mut i: usize = 0;
    while i < ls.len()
        invariant
            i <= ls@.len(),
            views(ls@) == lines(s@),
            str_views(r@) == kept_lines(views(ls@).subrange(0, i as int)),
        decreases ls@.len() - i,
    {
        proof {
            let lv = views(ls@);
            assert(lv.subrange(0, i + 1).drop_last() =~= lv.subrange(0, i as int));
            assert(lv.subrange(0, i + 1).last() == ls@[i as int]@);
        }
        let t = trim_chars(&ls[i]);
        if t.len() > 0 {
            let ghost before = str_views(r@);
            r.push(string_of(&t));
            proof {
                assert(str_views(r@) =~= before.push(t@));
            }
        }
        i = i + 1;
    }
    proof {
        assert(views(ls@).subrange(0, i as int) =~= views(ls@));
    }
    r
}

/// The reference to remove for a container's runtime image: its `-uid` repository tag
/// when the image listing shows one, else the raw image ID.
pub open spec fn runtime_ref_of(image_id: Seq<char>, tags: &Captured) -> Seq<char> {
    match tags {
        Ok(o) => if o.status == 0 {
            match first_uid_tag(listed(o.stdout@)) {
                Some(i) => listed(o.stdout@)[i],
                None => image_id,
            }
        } else {
            image_id
        },
        Err(_) => image_id,
    }
}

/// Arguments of `docker image inspect` that list the repository tags of `image_id`.
pub fn image_tags_args(image_id: &str) -> (r: Vec<String>)
    ensures
        str_views(r@) == seq![
            "image"@,
            "inspect"@,
            "--format={{range .RepoTags}}{{.}}\n{{end}}"@,
            image_id@,
        ],
{
    let r = vec![
        owned("image"),
        owned("inspect"),
        owned("--format={{range .RepoTags}}{{.}}\n{{end}}"),
        owned(image_id),
    ];
    proof {
        assert(str_views(r@) =~= seq![
            "image"@,
            "inspect"@,
            "--format={{range .RepoTags}}{{.}}\n{{end}}"@,
            image_id@,
        ]);
    }
    r
}

/// The runtime image reference of a container whose image is `image_id`, given what
/// listing that image's tags did: the `-uid` tag is preferred, the raw ID is the fallback,
/// also when the listing could not be run.
pub fn get_runtime_image_ref(image_id: &str, tags: &Captured) -> (r: Result<String, String>)
    ensures
        r matches Ok(s) && s@ == runtime_ref_of(image_id@, tags),
{
    match tags {
        Err(_) => Ok(owned(image_id)),
        Ok(o) => {
            if o.status == 0 {
                let ls = listed_lines(o.stdout.as_str());
                let mut i: usize = 0;
                let ghost all = listed(o.stdout@);
                proof {
                    assert(all.subrange(0, all.len() as int) =~= all);
                }
                while i < ls.len()
                    invariant
                        i <= ls@.len() == all.len(),
                        str_views(ls@) == all,
                        tags is Ok,
                        tags->Ok_0.status == 0,
                        all == listed(tags->Ok_0.stdout@),
                        first_uid_tag(all) == (match first_uid_tag(
                            all.subrange(i as int, all.len() as int),
                        ) {
                            Some(k) => Some(k + i),
                            None => None::<int>,
                        }),
                    decreases ls@.len() - i,
                {
                    let ghost rest = all.subrange(i as int, all.len() as int);
                    proof {
                        assert(rest.subrange(1, rest.len() as int) =~= all.subrange(
                            i + 1,
                            all.len() as int,
                        ));
                        assert(rest[0] == ls@[i as int]@);
                    }
                    if repo_has_uid(ls[i].as_str()) {
                        return Ok(ls[i].clone());
                    }
                    i = i + 1;
                }
            }
            Ok(owned(image_id))
        },
    }
}

/// Arguments of `docker rmi` for a runtime image: by tag without force, so that a build
/// image sharing its layers stays; by raw `sha256:` ID with force.
pub fn remove_runtime_image_args(image_ref: &str) -> (r: Vec<String>)
    ensures
        str_views(r@) == if has_prefix(image_ref@, "sha256:"@) {
            seq!["rmi"@, "--force"@, image_ref@]
        } else {
            seq!["rmi"@, image_ref@]
        },
{
    let r = if starts_with(&chars_of(image_ref), &chars_of("sha256:")) {
        vec![owned("rmi"), owned("--force"), owned(image_ref)]
    } else {
        vec![owned("rmi"), owned(image_ref)]
    };
    proof {
        if has_prefix(image_ref@, "sha256:"@) {
            assert(str_views(r@) =~= seq!["rmi"@, "--force"@, image_ref@]);
        } else {
            assert(str_views(r@) =~= seq!["rmi"@, image_ref@]);
        }
    }
    r
}

/// Whether the runtime image was removed, given what `docker rmi` did.
pub fn remove_runtime_image(rmi: &Captured) -> (r: Result<(), String>)
    ensures
        checked(r, rmi, "Failed to remove runtime image: "@),
{
    check(rmi, "Failed to remove runtime image: ")
}

/// Whether the image was removed, given what `docker rmi --force <id>` did.
pub fn remove_image(rmi: &Captured) -> (r: Result<(), String>)
    ensures
        checked(r, rmi, "Failed to remove image: "@),
{
    check(rmi, "Failed to remove image: ")
}

/// Whether the image exists locally, given what `docker image inspect <image>` did.
pub fn image_exists(inspect: &Captured) -> (r: bool)
    ensures
        r == succeeded(inspect),
{
    is_docker_available(inspect)
}

/// The tag that aliases the base image of the mount `mount_name`: `dcx-base:<name>`.
pub open spec fn base_tag_of(mount_name: Seq<char>) -> Seq<char> {
    "dcx-base:"@ + mount_name
}

/// The base-image alias of the mount `mount_name`.
pub fn base_image_tag(mount_name: &str) -> (r: String)
    ensures
        r@ == base_tag_of(mount_name@),
{
    concat("dcx-base:", mount_name)
}

/// Arguments of `docker tag` that alias `base_image` as `dcx-base:<mount_name>`.
pub fn tag_base_image_args(base_image: &str, mount_name: &str) -> (r: Vec<String>)
    ensures
        str_views(r@) == seq!["tag"@, base_image@, base_tag_of(mount_name@)],
{
    let r = vec![owned("tag"), owned(base_image), base_image_tag(mount_name)];
    proof {
        assert(str_views(r@) =~= seq!["tag"@, base_image@, base_tag_of(mount_name@)]);
    }
    r
}

/// Whether the base image was tagged, given what `docker tag` did.
pub fn tag_base_image(tag: &Captured) -> (r: Result<(), String>)
    ensures
        checked(r, tag, "Failed to tag base image: "@),
{
    check(tag, "Failed to tag base image: ")
}

/// Whether the base-image alias is gone, given what `docker rmi dcx-base:<name>` did:
/// an alias that did not exist counts as removed.
pub fn remove_base_image_tag(rmi: &Captured) -> (r: Result<(), String>)
    ensures
        match rmi {
            Ok(o) => if o.status != 0 && find_sub(trim(o.stderr@), "No such image"@) is Some {
                r is Ok
            } else {
                checked(r, rmi, "Failed to remove base image tag: "@)
            },
            Err(_) => checked(r, rmi, "Failed to remove base image tag: "@),
        },
{
    if let Ok(o) = rmi {
        if o.status != 0 {
            let err = trim_chars(&chars_of(o.stderr.as_str()));
            let pat = chars_of("No such image");
            proof {
                reveal_strlit("No such image");
            }
            if find(&err, &pat).is_some() {
                return Ok(());
            }
        }
    }
    check(rmi, "Failed to remove base image tag: ")
}

/// The number of removals among `outs` that succeeded, unless one could not be run.
pub open spec fn tally(outs: Seq<Captured>) -> Result<nat, Seq<char>>
    decreases outs.len(),
{
    if outs.len() == 0 {
        Ok(0)
    } else {
        match outs[0] {
            Err(e) => Err(e@),
            Ok(o) => match tally(outs.subrange(1, outs.len() as int)) {
                Err(e) => Err(e),
                Ok(n) => Ok(if o.status == 0 {
                    n + 1
                } else {
                    n
                }),
            },
        }
    }
}

/// Count the removals that succeeded; a removal that could not be run fails the sweep.
pub fn count_removed(outs: &Vec<Captured>) -> (r: Result<usize, String>)
    requires
        outs@.len() < usize::MAX,
    ensures
        match r {
            Ok(n) => tally(outs@) == Ok::<nat, Seq<char>>(n as nat),
            Err(e) => tally(outs@) == Err::<nat, Seq<char>>(e@),
        },
{
    let mut i: usize = outs.len();
    let mut n: usize = 0;
    proof {
        assert(outs@.subrange(outs@.len() as int, outs@.len() as int) =~= Seq::<Captured>::empty());
    }
    while i > 0
        invariant
            i <= outs@.len() < usize::MAX,
            n <= outs@.len() - i,
            tally(outs@.subrange(i as int, outs@.len() as int)) == Ok::<nat, Seq<char>>(n as nat),
        decreases i,
    {
        let ghost rest = outs@.subrange(i - 1, outs@.len() as int);
        proof {
            assert(rest.subrange(1, rest.len() as int) =~= outs@.subrange(
                i as int,
                outs@.len() as int,
            ));
            assert(rest[0] == outs@[i - 1]);
        }
        match &outs[i - 1] {
            Err(e) => {
                let ghost k = (i - 1) as int;
                let e2 = e.clone();
                proof {
                    lemma_tally_err(outs@, k);
                }
                return Err(first_error(outs, i - 1, e2));
            },
            Ok(o) => {
                if o.status == 0 {
                    n = n + 1;
                }
            },
        }
        i = i - 1;
    }
    proof {
        assert(outs@.subrange(0, outs@.len() as int) =~= outs@);
    }
    Ok(n)
}

/// The first spawn error among `outs[..=k]`, where `outs[k]` is one.
fn first_error(outs: &Vec<Captured>, k: usize, ek: String) -> (r: String)
    requires
        k < outs@.len(),
        outs@[k as int] matches Err(e) && e@ == ek@,
    ensures
        tally(outs@) matches Err(m) && m == r@,
{
    let mut j: usize = 0;
    while j < k
        invariant
            j <= k < outs@.len(),
            forall|q: int| 0 <= q < j ==> outs@[q] is Ok,
        decreases k - j,
    {
        if let Err(e) = &outs[j] {
            proof {
                lemma_tally_first_err(outs@, j as int);
            }
            return e.clone();
        }
        j = j + 1;
    }
    proof {
        lemma_tally_first_err(outs@, k as int);
    }
    ek
}

proof fn lemma_tally_err(outs: Seq<Captured>, k: int)
    requires
        0 <= k < outs.len(),
        outs[k] is Err,
    ensures
        tally(outs) is Err,
    decreases outs.len(),
{
    if k > 0 {
        let rest = outs.subrange(1, outs.len() as int);
        assert(rest[k - 1] == outs[k]);
        lemma_tally_err(rest, k - 1);
    }
}

proof fn lemma_tally_first_err(outs: Seq<Captured>, j: int)
    requires
        0 <= j < outs.len(),
        outs[j] is Err,
        forall|q: int| 0 <= q < j ==> outs[q] is Ok,
    ensures
        tally(outs) matches Err(m) && outs[j] matches Err(e) && m == e@,
    decreases outs.len(),
{
    if j > 0 {
        let rest = outs.subrange(1, outs.len() as int);
        assert(rest[j - 1] == outs[j]);
        assert forall|q: int| 0 <= q < j - 1 implies rest[q] is Ok by {
            assert(rest[q] == outs[q + 1]);
        }
        lemma_tally_first_err(rest, j - 1);
    }
}

/// Whether an image reference is one a sweep goes for: a build image when `build`,
/// else a runtime image.
pub open spec fn sweeps(tag: Seq<char>, build: bool) -> bool {
    if build {
        is_build_tag(tag)
    } else {
        is_runtime_tag(tag)
    }
}

/// The references of `ls` that a sweep goes for, in order.
pub open spec fn swept(ls: Seq<Seq<char>>, build: bool) -> Seq<Seq<char>>
    decreases ls.len(),
{
    if ls.len() == 0 {
        Seq::empty()
    } else {
        let prev = swept(ls.drop_last(), build);
        if sweeps(ls.last(), build) {
            prev.push(ls.last())
        } else {
            prev
        }
    }
}

/// Arguments of `docker images` that list every image as `repository:tag`.
pub fn image_list_args() -> (r: Vec<String>)
    ensures
        str_views(r@) == seq!["images"@, "--format"@, "{{.Repository}}:{{.Tag}}"@],
{
    let r = vec![owned("images"), owned("--format"), owned("{{.Repository}}:{{.Tag}}")];
    proof {
        assert(str_views(r@) =~= seq!["images"@, "--format"@, "{{.Repository}}:{{.Tag}}"@]);
    }
    r
}

/// The images of a listing that a sweep goes for: build images when `build`, else
/// runtime images. A listing that could not be run fails the sweep.
pub fn sweep_candidates(images: &Captured, build: bool) -> (r: Result<Vec<String>, String>)
    ensures
        match images {
            Err(e) => r matches Err(m) && m@ == e@,
            Ok(o) => r matches Ok(v) && str_views(v@) == swept(listed(o.stdout@), build),
        },
{
    let o = match images {
        Err(e) => {
            return Err(e.clone());
        },
        Ok(o) => o,
    };
    let ls = listed_lines(o.stdout.as_str());
    let ghost all = str_views(ls@);
    let mut r: Vec<String> = Vec::new();
    let mut i: usize = 0;
    while i < ls.len()
        invariant
            i <= ls@.len() == all.len(),
            all == str_views(ls@),
            str_views(r@) == swept(all.subrange(0, i as int), build),
        decreases ls@.len() - i,
    {
        proof {
            assert(all.subrange(0, i + 1).drop_last() =~= all.subrange(0, i as int));
            assert(all.subrange(0, i + 1).last() == ls@[i as int]@);
        }
        let keep = if build {
            is_build_image_tag(ls[i].as_str())
        } else {
            is_runtime_image_tag(ls[i].as_str())
        };
        if keep {
            let ghost before = str_views(r@);
            r.push(ls[i].clone());
            proof {
                assert(str_views(r@) =~= before.push(ls@[i as int]@));
            }
        }
        i = i + 1;
    }
    proof {
        assert(all.subrange(0, i as int) =~= all);
    }
    Ok(r)
}

/// The entries of a listing, for a sweep that removes each: its trimmed, non-empty lines.
/// A listing that could not be run fails the sweep.
pub fn listed_entries(list: &Captured) -> (r: Result<Vec<String>, String>)
    ensures
        match list {
            Err(e) => r matches Err(m) && m@ == e@,
            Ok(o) => r matches Ok(v) && str_views(v@) == listed(o.stdout@),
        },
{
    match list {
        Err(e) => Err(e.clone()),
        Ok(o) => Ok(listed_lines(o.stdout.as_str())),
    }
}

/// The `dcx-base:*` aliases to remove, given what listing them did.
pub fn base_image_tags(list: &Captured) -> (r: Result<Vec<String>, String>)
    ensures
        match failure(list, "Failed to list base image tags: "@) {
            Some(m) => r matches Err(e) && e@ == m,
            None => r matches Ok(v) && str_views(v@) == listed(list->Ok_0.stdout@),
        },
{
    match check(list, "Failed to list base image tags: ") {
        Err(e) => Err(e),
        Ok(()) => listed_entries(list),
    }
}

/// Whether a listing of an image's containers ran and listed none.
pub open spec fn unused(ps: &Captured) -> bool {
    ps matches Ok(o) && trim(o.stdout@).len() == 0
}

/// Whether a container's folder label, as inspecting it printed, is an absolute path.
pub open spec fn labelled(inspect: &Captured) -> bool {
    inspect matches Ok(o) && trim(o.stdout@).len() > 0 && find_sub(trim(o.stdout@), "no value"@)
        is None && has_prefix(trim(o.stdout@), "/"@)
}

/// Whether the image is used by no container, given what `docker ps -a --filter
/// ancestor=<image>` did; a check that could not be run counts as used.
pub fn is_unreferenced(ps: &Captured) -> (r: bool)
    ensures
        r == unused(ps),
{
    match ps {
        Ok(o) => trim_chars(&chars_of(o.stdout.as_str())).len() == 0,
        Err(_) => false,
    }
}

/// Whether an exited container belongs to a workspace, given what inspecting its
/// `devcontainer.local_folder` label did: the label holds an absolute path.
pub fn has_folder_label(inspect: &Captured) -> (r: bool)
    ensures
        r == labelled(inspect),
{
    match inspect {
        Ok(o) => {
            let v = trim_chars(&chars_of(o.stdout.as_str()));
            let nv = chars_of("no value");
            proof {
                reveal_strlit("no value");
            }
            v.len() > 0 && find(&v, &nv).is_none() && starts_with(&v, &chars_of("/"))
        },
        Err(_) => false,
    }
}

/// Arguments of `docker volume ls` that list the volumes whose names match `filter`.
pub fn list_volumes_args(filter: &str) -> (r: Vec<String>)
    ensures
        str_views(r@) == seq![
            "volume"@,
            "ls"@,
            "--filter"@,
            "name="@ + filter@,
            "--format"@,
            "{{.Name}}"@,
        ],
{
    let r = vec![
        owned("volume"),
        owned("ls"),
        owned("--filter"),
        concat("name=", filter),
        owned("--format"),
        owned("{{.Name}}"),
    ];
    proof {
        assert(str_views(r@) =~= seq![
            "volume"@,
            "ls"@,
            "--filter"@,
            "name="@ + filter@,
            "--format"@,
            "{{.Name}}"@,
        ]);
    }
    r
}

/// The lines of `ls` that hold more than whitespace, as they stand.
pub open spec fn nonblank(ls: Seq<Seq<char>>) -> Seq<Seq<char>>
    decreases ls.len(),
{
    if ls.len() == 0 {
        Seq::empty()
    } else {
        let prev = nonblank(ls.drop_last());
        if trim(ls.last()).len() > 0 {
            prev.push(ls.last())
        } else {
            prev
        }
    }
}

/// The volume names of a listing, given what `docker volume ls` did.
pub fn list_volumes(list: &Captured) -> (r: Result<Vec<String>, String>)
    ensures
        match failure(list, "Failed to list volumes: "@) {
            Some(m) => r matches Err(e) && e@ == m,
            None => r matches Ok(v) && str_views(v@) == nonblank(lines(list->Ok_0.stdout@)),
        },
{
    match check(list, "Failed to list volumes: ") {
        Err(e) => Err(e),
        Ok(()) => {
            let o = match list {
                Ok(o) => o,
                Err(_) => {
                    return Err(owned("unreachable"));
                },
            };
            let ls = split_lines(&chars_of(o.stdout.as_str()));
            let mut r: Vec<String> = Vec::new();
            let mut i: usize = 0;
            while i < ls.len()
                invariant
                    i <= ls@.len(),
                    views(ls@) == lines(o.stdout@),
                    str_views(r@) == nonblank(views(ls@).subrange(0, i as int)),
                decreases ls@.len() - i,
            {
                proof {
                    let lv = views(ls@);
                    assert(lv.subrange(0, i + 1).drop_last() =~= lv.subrange(0, i as int));
                    assert(lv.subrange(0, i + 1).last() == ls@[i as int]@);
                }
                if trim_chars(&ls[i]).len() > 0 {
                    let ghost before = str_views(r@);
                    r.push(string_of(&ls[i]));
                    proof {
                        assert(str_views(r@) =~= before.push(ls@[i as int]@));
                    }
                }
                i = i + 1;
            }
            proof {
                assert(views(ls@).subrange(0, i as int) =~= views(ls@));
            }
            Ok(r)
        },
    }
}

/// Whether the volume `name` was removed, given what `docker volume rm` did.
pub fn remove_volume(name: &str, rm: &Captured) -> (r: Result<(), String>)
    ensures
        checked(r, rm, "Failed to remove volume "@ + name@ + ": "@),
{
    let prefix = concat(concat("Failed to remove volume ", name).as_str(), ": ");
    check(rm, prefix.as_str())
}

/// The words of `ws` that start with `dcx-`, in order.
pub open spec fn managed_words(ws: Seq<Seq<char>>) -> Seq<Seq<char>>
    decreases ws.len(),
{
    if ws.len() == 0 {
        Seq::empty()
    } else {
        let prev = managed_words(ws.drop_last());
        if has_prefix(ws.last(), "dcx-"@) {
            prev.push(ws.last())
        } else {
            prev
        }
    }
}

/// The managed (`dcx-*`) volumes a container mounts, given what inspecting its mounts did.
pub fn get_container_volumes(inspect: &Captured) -> (r: Result<Vec<String>, String>)
    ensures
        match failure(inspect, "Failed to inspect container volumes: "@) {
            Some(m) => r matches Err(e) && e@ == m,
            None => r matches Ok(v) && str_views(v@) == managed_words(
                words(inspect->Ok_0.stdout@),
            ),
        },
{
    match check(inspect, "Failed to inspect container volumes: ") {
        Err(e) => Err(e),
        Ok(()) => {
            let o = match inspect {
                Ok(o) => o,
                Err(_) => {
                    return Err(owned("unreachable"));
                },
            };
            let ws = split_words(&chars_of(o.stdout.as_str()));
            let prefix = chars_of("dcx-");
            let mut r: Vec<String> = Vec::new();
            let mut i: usize = 0;
            while i < ws.len()
                invariant
                    i <= ws@.len(),
                    views(ws@) == words(o.stdout@),
                    prefix@ == "dcx-"@,
                    str_views(r@) == managed_words(views(ws@).subrange(0, i as int)),
                decreases ws@.len() - i,
            {
                proof {
                    let wv = views(ws@);
                    assert(wv.subrange(0, i + 1).drop_last() =~= wv.subrange(0, i as int));
                    assert(wv.subrange(0, i + 1).last() == ws@[i as int]@);
                }
                if starts_with(&ws[i], &prefix) {
                    let ghost before = str_views(r@);
                    r.push(string_of(&ws[i]));
                    proof {
                        assert(str_views(r@) =~= before.push(ws@[i as int]@));
                    }
                }
                i = i + 1;
            }
            proof {
                assert(views(ws@).subrange(0, i as int) =~= views(ws@));
            }
            Ok(r)
        },
    }
}

/// With no running container, stopping runs no command and succeeds: stopping is
/// idempotent.
pub proof fn lemma_stop_idempotent(running: Option<Seq<char>>, stop: Option<Captured>, r: Result<(), String>)
    requires
        running is None,
        stop_outcome(running, stop, r),
    ensures
        stop_plan(running) is None,
        r is Ok,
{
}

/// The items of `items` whose flag in `keep` is set, in order.
pub open spec fn selected(items: Seq<Seq<char>>, keep: Seq<bool>) -> Seq<Seq<char>>
    decreases items.len(),
{
    if items.len() == 0 {
        Seq::empty()
    } else {
        let prev = selected(items.drop_last(), keep.subrange(0, keep.len() - 1));
        if keep.last() {
            prev.push(items.last())
        } else {
            prev
        }
    }
}

/// The items whose flag is set, in order.
fn select(items: &Vec<String>, keep: &Vec<bool>) -> (r: Vec<String>)
    requires
        items@.len() == keep@.len(),
    ensures
        str_views(r@) == selected(str_views(items@), keep@),
{
    let mut r: Vec<String> = Vec::new();
    let mut i: usize = 0;
    while i < items.len()
        invariant
            i <= items@.len() == keep@.len(),
            str_views(r@) == selected(
                str_views(items@).subrange(0, i as int),
                keep@.subrange(0, i as int),
            ),
        decreases items@.len() - i,
    {
        proof {
            let iv = str_views(items@);
            assert(iv.subrange(0, i + 1).drop_last() =~= iv.subrange(0, i as int));
            assert(iv.subrange(0, i + 1).last() == items@[i as int]@);
            assert(keep@.subrange(0, i + 1).subrange(0, i as int) =~= keep@.subrange(0, i as int));
        }
        if keep[i] {
            let ghost before = str_views(r@);
            r.push(items[i].clone());
            proof {
                assert(str_views(r@) =~= before.push(items@[i as int]@));
            }
        }
        i = i + 1;
    }
    proof {
        assert(str_views(items@).subrange(0, i as int) =~= str_views(items@));
        assert(keep@.subrange(0, i as int) =~= keep@);
    }
    r
}

/// The build images an orphan sweep removes: of the candidates, those whose runtime image
/// no longer exists and which no container uses, in order. `runtime_exists[i]` and
/// `users[i]` are what was observed of `candidates[i]`.
pub fn build_images_to_remove(
    candidates: &Vec<String>,
    runtime_exists: &Vec<bool>,
    users: &Vec<Captured>,
) -> (r: Vec<String>)
    requires
        candidates@.len() == runtime_exists@.len(),
        candidates@.len() == users@.len(),
    ensures
        str_views(r@) == selected(
            str_views(candidates@),
            Seq::new(candidates@.len(), |i: int| !runtime_exists@[i] && unused(&users@[i])),
        ),
{
    let mut keep: Vec<bool> = Vec::new();
    let mut i: usize = 0;
    while i < candidates.len()
        invariant
            i <= candidates@.len(),
            candidates@.len() == runtime_exists@.len(),
            candidates@.len() == users@.len(),
            keep@.len() == i,
            forall|k: int| 0 <= k < i ==> keep@[k] == (!runtime_exists@[k] && unused(&users@[k])),
        decreases candidates@.len() - i,
    {
        keep.push(!runtime_exists[i] && is_unreferenced(&users[i]));
        i = i + 1;
    }
    proof {
        assert(keep@ =~= Seq::new(
            candidates@.len(),
            |i: int| !runtime_exists@[i] && unused(&users@[i]),
        ));
    }
    select(candidates, &keep)
}

/// The runtime images an orphan sweep removes: of the candidates, those no container
/// uses, in order. `users[i]` is what listing the containers of `candidates[i]` did.
pub fn runtime_images_to_remove(candidates: &Vec<String>, users: &Vec<Captured>) -> (r: Vec<String>)
    requires
        candidates@.len() == users@.len(),
    ensures
        str_views(r@) == selected(
            str_views(candidates@),
            Seq::new(candidates@.len(), |i: int| unused(&users@[i])),
        ),
{
    let mut keep: Vec<bool> = Vec::new();
    let mut i: usize = 0;
    while i < candidates.len()
        invariant
            i <= candidates@.len() == users@.len(),
            keep@.len() == i,
            forall|k: int| 0 <= k < i ==> keep@[k] == unused(&users@[k]),
        decreases candidates@.len() - i,
    {
        keep.push(is_unreferenced(&users[i]));
        i = i + 1;
    }
    proof {
        assert(keep@ =~= Seq::new(candidates@.len(), |i: int| unused(&users@[i])));
    }
    select(candidates, &keep)
}

/// The exited containers an orphan sweep removes: those whose folder label is an absolute
/// path, in order. `labels[i]` is what inspecting the label of `ids[i]` did.
pub fn containers_to_remove(ids: &Vec<String>, labels: &Vec<Captured>) -> (r: Vec<String>)
    requires
        ids@.len() == labels@.len(),
    ensures
        str_views(r@) == selected(
            str_views(ids@),
            Seq::new(ids@.len(), |i: int| labelled(&labels@[i])),
        ),
{
    let mut keep: Vec<bool> = Vec::new();
    let mut i: usize = 0;
    while i < ids.len()
        invariant
            i <= ids@.len() == labels@.len(),
            keep@.len() == i,
            forall|k: int| 0 <= k < i ==> keep@[k] == labelled(&labels@[k]),
        decreases ids@.len() - i,
    {
        keep.push(has_folder_label(&labels[i]));
        i = i + 1;
    }
    proof {
        assert(keep@ =~= Seq::new(ids@.len(), |i: int| labelled(&labels@[i])));
    }
    select(ids, &keep)
}

/// How many of the removals `outs` ran and succeeded.
pub open spec fn succeeded_count(outs: Seq<Captured>) -> nat
    decreases outs.len(),
{
    if outs.len() == 0 {
        0
    } else {
        succeeded_count(outs.drop_last()) + if succeeded(&outs.last()) {
            1nat
        } else {
            0nat
        }
    }
}

/// Count the removals that ran and succeeded; one that could not run counts as not done.
pub fn count_succeeded(outs: &Vec<Captured>) -> (r: usize)
    ensures
        r == succeeded_count(outs@),
{
    let mut n: usize = 0;
    let mut i: usize = 0;
    while i < outs.len()
        invariant
            i <= outs@.len(),
            n == succeeded_count(outs@.subrange(0, i as int)),
            n <= i,
        decreases outs@.len() - i,
    {
        proof {
            assert(outs@.subrange(0, i + 1).drop_last() =~= outs@.subrange(0, i as int));
            assert(outs@.subrange(0, i + 1).last() == outs@[i as int]);
        }
        if is_docker_available(&outs[i]) {
            n = n + 1;
        }
        i = i + 1;
    }
    proof {
        assert(outs@.subrange(0, i as int) =~= outs@);
    }
    n
}

} // verus!
