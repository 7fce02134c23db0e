//! The search request typed by the user.

use vstd::prelude::*;

verus! {

/// A search as the user typed it; [`crate::interpreter`] reads it.
#[derive(Debug, Clone)]
pub struct UsrQuery {
    pub raw: String,
}

/// Wraps the text typed in the search box, unchanged, as a [`UsrQuery`].
/// Groups in it are separated by `&` (all must hold) and filters in a group
/// by `,` (one must hold); see [`crate::interpreter::parse_search`].
pub fn query_generator(search: &str) -> (q: UsrQuery)
    ensures
        q.raw@ == search@,
{
    UsrQuery { raw: String::from_str(search) }
}

} // verus!
