//! Jobs, as far as a view or the index of the server lists them.

use vstd::prelude::*;

verus! {

/// A link to a job: its name and where it lives.
#[derive(Debug, Clone, PartialEq, Eq)]
pub struct ShortJob {
    pub name: String,
    pub url: String,
}

} // verus!
