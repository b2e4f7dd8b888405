use vstd::prelude::*;

use crate::cmd::owned;
use crate::naming::{join, join_path};
use crate::platform::Platform;
use crate::text::{chars_of, has_prefix, slice, string_of, trim_slashes, trim_trailing_slashes};

verus! {

/// A shared directory listed in the VM's configuration.
#[derive(Debug, PartialEq)]
pub struct ColimaMount {
    pub location: String,
    pub writable: bool,
}

/// Where the VM's configuration file lies under `home`.
pub open spec fn colima_config_of(p: Platform, home: Seq<char>) -> Seq<char> {
    match p {
        Platform::MacOs => join(home, ".colima/default/colima.yaml"@),
        Platform::Linux => join(home, ".config/colima/default/colima.yaml"@),
    }
}

/// The path of the VM's configuration file under `home` on `platform`.
pub fn colima_config_path(platform: Platform, home: &str) -> (r: String)
    ensures
        r@ == colima_config_of(platform, home@),
{
    match platform {
        Platform::MacOs => join_path(home, ".colima/default/colima.yaml"),
        Platform::Linux => join_path(home, ".config/colima/default/colima.yaml"),
    }
}

/// Whether a listed location is the relay directory itself.
pub open spec fn is_relay_location(location: Seq<char>) -> bool {
    trim_slashes(location) == "~/.colima-mounts"@
}

/// The mounts of `ms` that are not the relay directory, in order.
pub open spec fn without_relay(ms: Seq<ColimaMount>) -> Seq<ColimaMount>
    decreases ms.len(),
{
    if ms.len() == 0 {
        Seq::empty()
    } else {
        let prev = without_relay(ms.drop_last());
        if is_relay_location(ms.last().location@) {
            prev
        } else {
            prev.push(ms.last())
        }
    }
}

/// Whether `location` names the relay directory, trailing slashes aside.
fn relay_location(location: &str) -> (r: bool)
    ensures
        r == is_relay_location(location@),
{
    let t = trim_trailing_slashes(&chars_of(location));
    crate::mount_table::same_chars(&t, &chars_of("~/.colima-mounts"))
}

/// Drop the relay directory (with or without trailing slashes) from the listed mounts.
pub fn filter_relay_mounts(mounts: Vec<ColimaMount>) -> (r: Vec<ColimaMount>)
    ensures
        r@ == without_relay(mounts@),
{
    let mut r: Vec<ColimaMount> = Vec::new();
    let mut i: usize = 0;
    while i < mounts.len()
        invariant
            i <= mounts@.len(),
            r@ == without_relay(mounts@.subrange(0, i as int)),
        decreases mounts@.len() - i,
    {
        proof {
            assert(mounts@.subrange(0, i + 1).drop_last() =~= mounts@.subrange(0, i as int));
        }
        let m = &mounts[i];
        if !relay_location(m.location.as_str()) {
            r.push(ColimaMount { location: m.location.clone(), writable: m.writable });
            proof {
                assert(r@.last() == mounts@[i as int]);
            }
        }
        i = i + 1;
    }
    proof {
        assert(mounts@.subrange(0, i as int) =~= mounts@);
    }
    r
}

/// `location` with a leading `~` standing for `home`.
pub open spec fn expanded(location: Seq<char>, home: Seq<char>) -> Seq<char> {
    if has_prefix(location, "~/"@) {
        join(home, location.subrange(2, location.len() as int))
    } else if location == "~"@ {
        home
    } else {
        location
    }
}

/// Expand a leading `~` in `location` to `home`.
pub fn expand_tilde(location: &str, home: &str) -> (r: String)
    ensures
        r@ == expanded(location@, home@),
{
    let v = chars_of(location);
    proof {
        reveal_strlit("~/");
    }
    if crate::text::starts_with(&v, &chars_of("~/")) {
        let rest = slice(&v, 2, v.len());
        return join_path(home, string_of(&rest).as_str());
    }
    if crate::mount_table::same_chars(&v, &chars_of("~")) {
        return owned(home);
    }
    owned(location)
}

} // verus!
