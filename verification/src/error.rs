//! The error taxonomy of the library.

use vstd::prelude::*;

verus! {

/// What can go wrong when talking to the object store.
///
/// Absent values (a missing name, bytes that are not valid UTF-8) are never
/// reported through this type: the accessors surface them as `None`.
#[derive(Clone, Copy, Debug, PartialEq, Eq, Structural)]
pub enum Error {
    /// A store lookup missed: the identifier names no object of the
    /// requested kind (lookup miss, malformed tree reference, or a parent
    /// that is not a commit).
    NotFound,
    /// A parent index at or past the commit's parent count.
    OutOfBounds,
    /// A text argument holds an interior nul byte, which the store's
    /// internal string encoding cannot represent. Rejected before any
    /// store interaction.
    EmbeddedNul,
}

impl Error {
    /// A short human-readable description of the failure kind.
    pub fn describe(&self) -> (r: &'static str)
        ensures
            r@ == self.spec_describe(),
    {
        match self {
            Error::NotFound => "object not found",
            Error::OutOfBounds => "parent index out of bounds",
            Error::EmbeddedNul => "text argument holds an interior nul byte",
        }
    }

    /// What `describe` returns for each failure kind.
    pub open spec fn spec_describe(self) -> Seq<char> {
        match self {
            Error::NotFound => "object not found"@,
            Error::OutOfBounds => "parent index out of bounds"@,
            Error::EmbeddedNul => "text argument holds an interior nul byte"@,
        }
    }
}

} // verus!
