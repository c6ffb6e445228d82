//! The answer to the front end's `load` request.

use vstd::prelude::*;

verus! {

/// What the front end sends with a `load` request.
#[derive(Clone, Debug, PartialEq)]
pub struct LoadArgs {
    pub locale: String,
}

/// What the front end is told on `load`: the application's version.
#[derive(Clone, Debug, PartialEq)]
pub struct LoadResult {
    pub version: String,
}

/// Builds the `load` answer for the given version.
pub fn load_inner(version: String) -> (r: LoadResult)
    ensures
        r.version == version,
{
    LoadResult { version }
}

} // verus!
