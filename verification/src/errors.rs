//! The error taxonomy shared by every store-facing operation.
//!
//! Callers need the same three-way discrimination everywhere: bad input,
//! genuinely absent, or a storage problem. The dispatcher maps these into
//! user-visible messages; none of them carries a payload.

use vstd::prelude::*;

verus! {

/// A typed failure of a store-facing operation.
#[derive(Clone, Copy, Debug, PartialEq, Eq, Structural)]
pub enum BotError {
    /// A caller-supplied id is not a well-formed store identifier.
    InvalidIdentifier,
    /// A single-entity lookup or single-id delete matched nothing.
    NotFound,
    /// A correlation id is absent from the key-value store: expired,
    /// already consumed, or never issued — indistinguishable to the caller.
    ExpiredOrUnknown,
    /// The underlying store reported a failure (query, insert, delete,
    /// stream read).
    StorageError,
    /// The store could not be reached at all.
    StorageUnavailable,
}

impl BotError {
    /// A short description, for callers that render errors.
    pub fn message(&self) -> (r: &'static str)
        ensures
            r@.len() > 0,
    {
        proof {
            reveal_strlit("the given identifier is malformed");
            reveal_strlit("the requested entity does not exist");
            reveal_strlit("this action is no longer available");
            reveal_strlit("the storage backend reported a failure");
            reveal_strlit("the storage backend could not be reached");
        }
        match self {
            BotError::InvalidIdentifier => "the given identifier is malformed",
            BotError::NotFound => "the requested entity does not exist",
            BotError::ExpiredOrUnknown => "this action is no longer available",
            BotError::StorageError => "the storage backend reported a failure",
            BotError::StorageUnavailable => "the storage backend could not be reached",
        }
    }
}

} // verus!
