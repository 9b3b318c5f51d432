//! The category of version bump a set of changes requires.

use vstd::prelude::*;

verus! {

/// The bump category: which component of the version must be incremented.
#[derive(Debug, Clone, Copy, PartialEq, Eq, Structural)]
pub enum VersionType {
    Major,
    Minor,
    Patch,
}

} // verus!
