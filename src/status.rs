use vstd::prelude::*;

verus! {

/// The state label of the `status` table: `running` and `orphaned` for a mounted entry
/// with and without a container, `stale mount` for one that is not mounted.
pub fn mount_state_label(is_mounted: bool, has_container: bool) -> (r: &'static str)
    ensures
        r@ == if !is_mounted {
            "stale mount"@
        } else if has_container {
            "running"@
        } else {
            "orphaned"@
        },
{
    if !is_mounted {
        "stale mount"
    } else if has_container {
        "running"
    } else {
        "orphaned"
    }
}

} // verus!
