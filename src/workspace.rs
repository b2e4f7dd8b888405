use vstd::prelude::*;

use crate::naming::{join, join_path};

verus! {

/// The configuration files looked for in a workspace, in order.
pub open spec fn config_candidates(workspace: Seq<char>) -> Seq<Seq<char>> {
    seq![
        join(join(workspace, ".devcontainer"@), "devcontainer.json"@),
        join(workspace, ".devcontainer.json"@),
    ]
}

/// The paths where a workspace's devcontainer configuration is looked for, in order:
/// `.devcontainer/devcontainer.json`, then `.devcontainer.json`.
pub fn config_paths(workspace: &str) -> (r: Vec<String>)
    ensures
        crate::cmd::str_views(r@) == config_candidates(workspace@),
{
    let nested = join_path(join_path(workspace, ".devcontainer").as_str(), "devcontainer.json");
    let top = join_path(workspace, ".devcontainer.json");
    let r = vec![nested, top];
    proof {
        assert(crate::cmd::str_views(r@) =~= config_candidates(workspace@));
    }
    r
}

/// The configuration of `workspace`: the first of its candidate paths that exists, given
/// which of them exist.
pub fn find_devcontainer_config(workspace: &str, nested_exists: bool, top_level_exists: bool) -> (r:
    Option<String>)
    ensures
        match r {
            Some(p) => if nested_exists {
                p@ == config_candidates(workspace@)[0]
            } else {
                top_level_exists && p@ == config_candidates(workspace@)[1]
            },
            None => !nested_exists && !top_level_exists,
        },
{
    if nested_exists {
        Some(join_path(join_path(workspace, ".devcontainer").as_str(), "devcontainer.json"))
    } else if top_level_exists {
        Some(join_path(workspace, ".devcontainer.json"))
    } else {
        None
    }
}

} // verus!
