use vstd::prelude::*;

use crate::cmd::{concat, owned};
use crate::text::{ascii_lower, chars_of, lowercase_ascii};

verus! {

/// How much network a devcontainer gets.
#[derive(Debug, Clone, Copy, PartialEq, Eq, Structural)]
pub enum NetworkMode {
    /// No network access.
    Restricted,
    /// Development tools only (the default).
    Minimal,
    /// The host's network only.
    Host,
    /// Unrestricted access.
    Open,
}

/// The lowercase name of a mode.
pub open spec fn mode_name(m: NetworkMode) -> Seq<char> {
    match m {
        NetworkMode::Restricted => "restricted"@,
        NetworkMode::Minimal => "minimal"@,
        NetworkMode::Host => "host"@,
        NetworkMode::Open => "open"@,
    }
}

/// The mode whose name is `s`, letters compared without regard to ASCII case.
pub open spec fn mode_named(s: Seq<char>) -> Option<NetworkMode> {
    let l = s.map_values(|c: char| ascii_lower(c));
    if l == "restricted"@ {
        Some(NetworkMode::Restricted)
    } else if l == "minimal"@ {
        Some(NetworkMode::Minimal)
    } else if l == "host"@ {
        Some(NetworkMode::Host)
    } else if l == "open"@ {
        Some(NetworkMode::Open)
    } else {
        None
    }
}

impl NetworkMode {
    /// The lowercase name of the mode.
    pub fn to_string(&self) -> (r: String)
        ensures
            r@ == mode_name(*self),
    {
        match self {
            NetworkMode::Restricted => owned("restricted"),
            NetworkMode::Minimal => owned("minimal"),
            NetworkMode::Host => owned("host"),
            NetworkMode::Open => owned("open"),
        }
    }

    /// The mode named `s` (in any ASCII case), or an error that lists the names.
    pub fn parse_name(s: &str) -> (r: Result<NetworkMode, String>)
        ensures
            match mode_named(s@) {
                Some(m) => r == Ok::<NetworkMode, String>(m),
                None => r matches Err(e) && e@ == "Invalid network mode '"@ + s@
                    + "'. Must be one of: restricted, minimal, host, open"@,
            },
    {
        let l = lowercase_ascii(s);
        let same = |w: &str| -> (b: bool)
            ensures
                b == (l@ == w@),
            { crate::mount_table::same_chars(&l, &chars_of(w)) };
        if same("restricted") {
            Ok(NetworkMode::Restricted)
        } else if same("minimal") {
            Ok(NetworkMode::Minimal)
        } else if same("host") {
            Ok(NetworkMode::Host)
        } else if same("open") {
            Ok(NetworkMode::Open)
        } else {
            Err(
                concat(
                    concat("Invalid network mode '", s).as_str(),
                    "'. Must be one of: restricted, minimal, host, open",
                ),
            )
        }
    }
}

impl std::str::FromStr for NetworkMode {
    type Err = String;

    fn from_str(s: &str) -> Result<NetworkMode, String> {
        NetworkMode::parse_name(s)
    }
}

impl Default for NetworkMode {
    fn default() -> (r: NetworkMode)
        ensures
            r == NetworkMode::Minimal,
    {
        NetworkMode::Minimal
    }
}

/// Reading back the name of a mode gives that mode.
pub proof fn lemma_mode_name_round_trip(m: NetworkMode)
    ensures
        mode_named(mode_name(m)) == Some(m),
{
    reveal_strlit("restricted");
    reveal_strlit("minimal");
    reveal_strlit("host");
    reveal_strlit("open");
    let n = mode_name(m);
    assert forall|i: int| 0 <= i < n.len() implies ascii_lower(#[trigger] n[i]) == n[i] by {
        assert('a' <= n[i] && n[i] <= 'z');
    }
    assert(n.map_values(|c: char| ascii_lower(c)) =~= n);
    assert("host"@[0] != "open"@[0]);
}

} // verus!
