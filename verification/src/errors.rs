//! The closed error taxonomy of the index layer.
//!
//! The index itself originates exactly three error kinds; any failure
//! reported by the keyed-store collaborator is passed through unchanged in
//! the `Store` variant, so callers can still match on kind.

use vstd::prelude::*;

verus! {

/// An error reported by the keyed-store collaborator. The index never
/// inspects it; it is carried through to the caller unchanged.
#[derive(Debug)]
pub struct StoreError {
    pub message: String,
}

/// Every error the index can report: the three kinds this layer originates,
/// plus the pass-through for the keyed store's own failures.
#[derive(Debug)]
pub enum MetadataIndexError {
    /// `get` targeted a composite key with no committed posting set.
    NotFoundError,
    /// `begin_transaction` was called while a transaction was already open,
    /// or `get` was called while a transaction was open.
    InTransaction,
    /// `set`, `delete` or `commit_transaction` was called while no
    /// transaction was open.
    NotInTransaction,
    /// A failure of the keyed-store collaborator, propagated unchanged.
    Store(StoreError),
}

/// The coarse classification a caller sees for each error kind.
#[derive(Debug, PartialEq, Eq, Structural)]
pub enum ErrorCodes {
    /// The call was illegal in the index's current state, or targeted a
    /// key that holds nothing.
    InvalidArgument,
    /// The keyed-store collaborator failed on its own account.
    Internal,
}

impl MetadataIndexError {
    /// The classification of this error: every kind the index originates is
    /// an invalid argument; a store failure is internal.
    pub fn code(&self) -> (r: ErrorCodes)
        ensures
            r == (match self {
                MetadataIndexError::Store(_) => ErrorCodes::Internal,
                _ => ErrorCodes::InvalidArgument,
            }),
    {
        match self {
            MetadataIndexError::NotFoundError => ErrorCodes::InvalidArgument,
            MetadataIndexError::InTransaction => ErrorCodes::InvalidArgument,
            MetadataIndexError::NotInTransaction => ErrorCodes::InvalidArgument,
            MetadataIndexError::Store(_) => ErrorCodes::Internal,
        }
    }
}

} // verus!
