use vstd::prelude::*;

verus! {

/// Exit code: success.
pub const SUCCESS: i32 = 0;

/// Exit code: runtime error (engine, mount or subcommand failure).
pub const RUNTIME_ERROR: i32 = 1;

/// Exit code: usage error (missing or invalid workspace, recursion, missing config).
pub const USAGE_ERROR: i32 = 2;

/// Exit code: the user declined at a prompt.
pub const USER_ABORTED: i32 = 4;

/// Exit code: a required external tool was not found.
pub const PREREQ_NOT_FOUND: i32 = 127;

} // verus!
