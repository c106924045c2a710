//! Error kinds shared by every operation of the catalog.

use vstd::prelude::*;

verus! {

/// Outcome of a rejected operation.
///
/// Every failure of the tree manager and of the bridge registry is one of
/// these kinds; validation failures are produced before any write, so a
/// rejected operation leaves the stores untouched.
#[derive(Clone, Copy, PartialEq, Eq, Structural, Debug)]
pub enum StoreError {
    /// An identifier did not resolve to a stored record.
    NotFound,
    /// A label is already used under the same parent, a node was asked to be
    /// its own parent, or the requested move would create a cycle.
    Conflict,
    /// The node still has children or a live binding, so it cannot be removed.
    Blocked,
    /// The underlying store could not complete the request.
    StoreFailure,
}

impl StoreError {
    /// Stable user-facing message for this error kind.
    pub fn message(&self) -> (r: &'static str)
        ensures
            r@ == self.spec_message(),
    {
        match self {
            StoreError::NotFound => "record not found",
            StoreError::Conflict => "conflicting label, parent or move",
            StoreError::Blocked => "node is still referenced",
            StoreError::StoreFailure => "store operation failed",
        }
    }

    /// The message each kind maps to.
    pub open spec fn spec_message(self) -> Seq<char> {
        match self {
            StoreError::NotFound => "record not found"@,
            StoreError::Conflict => "conflicting label, parent or move"@,
            StoreError::Blocked => "node is still referenced"@,
            StoreError::StoreFailure => "store operation failed"@,
        }
    }
}

} // verus!
