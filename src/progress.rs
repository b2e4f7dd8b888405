use vstd::prelude::*;

verus! {

/// Format a progress message: an arrow (U+2192), a space, then the message.
pub fn format_step(msg: &str) -> (r: String)
    ensures
        r@ == "\u{2192} "@ + msg@,
{
    crate::cmd::concat("\u{2192} ", msg)
}

} // verus!
