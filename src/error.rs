use vstd::prelude::*;

verus! {

/// Why a storage operation failed.
#[derive(Clone, Copy, Debug, PartialEq, Eq, Structural)]
pub enum StorageError {
    /// No object is stored under the requested partition and identifier.
    NotFound,
    /// The backend could not be reached or refused the request; retrying may help.
    Unavailable,
}

} // verus!
