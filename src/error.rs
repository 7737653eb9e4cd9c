//! The kinds of failure that traversal and reconciliation distinguish.
use vstd::prelude::*;

verus! {

/// A failure met while indexing or updating the cache.
#[derive(Debug, Clone, Copy, PartialEq, Eq, Structural)]
pub enum SyncError {
    /// The remote provider could not list a folder's children.
    RemoteFetchFailure,
    /// A stored or received node record could not be interpreted.
    DecodeFailure,
    /// A read or write against the cache store failed.
    StorageFailure,
    /// The caller asked the run to stop.
    Cancelled,
}

} // verus!
