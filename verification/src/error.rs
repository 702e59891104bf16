//! Error kinds of the catalog.
use vstd::prelude::*;

verus! {

/// How a catalog operation can fail.
#[derive(Copy, Clone, Debug, PartialEq, Eq, Structural)]
pub enum DatabaseError {
    /// A lookup found no library row with the given id.
    NotFound,
    /// The backend rejected a statement or failed to execute it.
    StorageError,
    /// A media-type token is not one of the closed set.
    DecodeError,
}

} // verus!
