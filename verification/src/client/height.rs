//! A chain height: revision number and height within the revision.

use vstd::prelude::*;

verus! {

/// A height in a chain's history.  For a solo machine the revision number
/// is always zero and the revision height is the sequence number.
#[derive(Clone, Copy, Debug, PartialEq, Eq, Structural)]
pub struct Height {
    /// The revision (chain incarnation) number.
    pub revision_number: u64,
    /// The height within the revision.
    pub revision_height: u64,
}

impl Height {
    /// Builds a height from its two components.
    pub fn new(revision_number: u64, revision_height: u64) -> (r: Height)
        ensures
            r.revision_number == revision_number,
            r.revision_height == revision_height,
    {
        Height { revision_number, revision_height }
    }
}

} // verus!
