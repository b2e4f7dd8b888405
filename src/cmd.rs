use vstd::prelude::*;

verus! {

/// What a finished subprocess left behind.
#[derive(Debug)]
pub struct CaptureOutput {
    pub stdout: String,
    pub stderr: String,
    /// The exit code, or 1 if the process was killed by a signal.
    pub status: i32,
}

/// The outcome of running a command in capture mode: its output, or why it could not start.
pub type Captured = Result<CaptureOutput, String>;

/// Whether the command ran and exited with status 0.
pub open spec fn succeeded(out: &Captured) -> bool {
    out matches Ok(o) && o.status == 0
}

/// The views of a sequence of strings.
pub open spec fn str_views(v: Seq<String>) -> Seq<Seq<char>> {
    v.map_values(|s: String| s@)
}

/// A `String` holding the characters of `s`.
pub fn owned(s: &str) -> (r: String)
    ensures
        r@ == s@,
{
    s.to_owned()
}

/// `a` followed by `b`.
pub fn concat(a: &str, b: &str) -> (r: String)
    ensures
        r@ == a@ + b@,
{
    let mut v = crate::text::chars_of(a);
    crate::text::push_str(&mut v, b);
    crate::text::string_of(&v)
}

} // verus!
