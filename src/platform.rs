use vstd::prelude::*;

use crate::cmd::{owned, str_views};

verus! {

/// The host system, which decides how mounts are listed and undone.
#[derive(Debug, Clone, Copy, PartialEq, Eq, Structural)]
pub enum Platform {
    /// The kernel lists mounts in a text table; `fusermount -u` unmounts.
    Linux,
    /// The `mount` command lists mounts; `umount` unmounts.
    MacOs,
}

/// The program that unmounts a bind mount.
pub open spec fn unmount_prog_of(p: Platform) -> Seq<char> {
    match p {
        Platform::Linux => "fusermount"@,
        Platform::MacOs => "umount"@,
    }
}

/// The program that unmounts a bind mount on `platform`.
pub fn unmount_prog(platform: Platform) -> (r: &'static str)
    ensures
        r@ == unmount_prog_of(platform),
{
    match platform {
        Platform::Linux => "fusermount",
        Platform::MacOs => "umount",
    }
}

/// The arguments of the unmount program for `mount_point`.
pub open spec fn unmount_args_of(p: Platform, mount_point: Seq<char>) -> Seq<Seq<char>> {
    match p {
        Platform::Linux => seq!["-u"@, mount_point],
        Platform::MacOs => seq![mount_point],
    }
}

/// The arguments of the unmount program for `mount_point` on `platform`.
pub fn unmount_args(platform: Platform, mount_point: &str) -> (r: Vec<String>)
    ensures
        str_views(r@) == unmount_args_of(platform, mount_point@),
{
    let r = match platform {
        Platform::Linux => vec![owned("-u"), owned(mount_point)],
        Platform::MacOs => vec![owned(mount_point)],
    };
    proof {
        assert(str_views(r@) =~= unmount_args_of(platform, mount_point@));
    }
    r
}

/// How to install the bind-mount provider.
pub open spec fn bindfs_hint_of(p: Platform) -> Seq<char> {
    match p {
        Platform::Linux => "sudo apt install bindfs"@,
        Platform::MacOs => "brew install bindfs"@,
    }
}

/// How to install the bind-mount provider on `platform`.
pub fn bindfs_install_hint(platform: Platform) -> (r: &'static str)
    ensures
        r@ == bindfs_hint_of(platform),
{
    match platform {
        Platform::Linux => "sudo apt install bindfs",
        Platform::MacOs => "brew install bindfs",
    }
}

/// How to install the orchestrator CLI (the same everywhere).
pub fn devcontainer_install_hint() -> (r: &'static str)
    ensures
        r@ == "npm install -g @devcontainers/cli"@,
{
    "npm install -g @devcontainers/cli"
}

/// The bind mounts of the mount table, read from the kernel's table text on Linux or
/// from the `mount` command's output on macOS.
pub fn parse_mount_table(platform: Platform, text: &str) -> (r: Vec<crate::mount_table::MountEntry>)
    ensures
        crate::mount_table::entry_views(r@) == match platform {
            Platform::Linux => crate::mount_table::proc_entries(text@),
            Platform::MacOs => crate::mount_table::mount_output_entries(text@),
        },
{
    match platform {
        Platform::Linux => crate::mount_table::parse_proc_mounts(text),
        Platform::MacOs => crate::mount_table::parse_mount_output(text),
    }
}

} // verus!
