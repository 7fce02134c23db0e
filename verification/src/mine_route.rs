//! What the mining window accepts as the directory to scan.

use vstd::prelude::*;
use crate::text::{trim_seq, chars_of, trim_range, string_from_range};

verus! {

/// The directory typed in the mining window, trimmed; `None` when nothing
/// but whitespace was typed, in which case the window asks for a path
/// instead of starting.
pub fn route_from_input(text: &str) -> (r: Option<String>)
    ensures
        match r {
            Some(route) => route@ == trim_seq(text@) && route@.len() > 0,
            None => trim_seq(text@).len() == 0,
        },
{
    let v = chars_of(text);
    let (a, b) = trim_range(&v, 0, v.len());
    proof {
        assert(v@.subrange(0, v@.len() as int) =~= text@);
    }
    if a == b {
        None
    } else {
        Some(string_from_range(&v, a, b))
    }
}

} // verus!
