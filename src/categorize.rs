use vstd::prelude::*;

verus! {

/// Health of one entry of the relay directory, derived from what was observed.
#[derive(Debug, Clone, Copy, PartialEq, Eq, Structural)]
pub enum MountStatus {
    /// Healthy bind mount with a running container.
    Active,
    /// Healthy bind mount but no container.
    Orphaned,
    /// Listed in the mount table but not accessible (the mounter died).
    Stale,
    /// Not in the mount table: a leftover directory.
    Empty,
}

/// The status that the observed triple stands for.
pub open spec fn status_of(in_table: bool, accessible: bool, has_container: bool) -> MountStatus {
    if !in_table {
        MountStatus::Empty
    } else if !accessible {
        MountStatus::Stale
    } else if has_container {
        MountStatus::Active
    } else {
        MountStatus::Orphaned
    }
}

/// Categorize a relay entry from its observed state.
pub fn categorize(is_fuse_mounted: bool, is_accessible: bool, has_container: bool) -> (r: MountStatus)
    ensures
        r == status_of(is_fuse_mounted, is_accessible, has_container),
{
    if !is_fuse_mounted {
        return MountStatus::Empty;
    }
    if !is_accessible {
        return MountStatus::Stale;
    }
    if has_container {
        MountStatus::Active
    } else {
        MountStatus::Orphaned
    }
}

/// Every observed triple stands for exactly one status.
pub proof fn lemma_categorize_total(in_table: bool, accessible: bool, has_container: bool)
    ensures
        ({
            let s = status_of(in_table, accessible, has_container);
            let n = (if s == MountStatus::Active { 1int } else { 0 }) + (if s
                == MountStatus::Orphaned { 1int } else { 0 }) + (if s == MountStatus::Stale {
                1int
            } else {
                0
            }) + (if s == MountStatus::Empty { 1int } else { 0 });
            n == 1
        }),
{
}

} // verus!
