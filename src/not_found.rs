//! The page shown for a route that does not exist.
use vstd::prelude::*;

verus! {

/// The page for an unknown route.
#[derive(Clone, Copy, Debug, PartialEq, Eq, Structural)]
pub struct NotFound;

impl NotFound {
    /// The lines the page shows.
    pub fn lines(&self) -> (r: (&'static str, &'static str))
        ensures
            r.0@ == "404 ( ˘︹˘ )"@,
            r.1@ == "This route doesn't exist"@,
    {
        ("404 ( ˘︹˘ )", "This route doesn't exist")
    }
}

} // verus!
