use vstd::prelude::*;

verus! {

/// The failures the record store reports to its callers.
///
/// The store never recovers from one of these locally: every failure is
/// returned to the caller, which renders it and decides whether to retry
/// the whole logical operation.
#[derive(Clone, Copy, Debug, PartialEq, Eq, Structural)]
pub enum StoreError {
    /// An add found a record with the same key already present.
    AlreadyExists,
    /// The target of a delete or lookup is absent.
    NotFound,
    /// The pool a new record refers to does not exist.
    ReferenceNotFound,
    /// A per-server singleton setting is already present.
    AlreadySet,
    /// No per-server singleton setting is present.
    NotSet,
    /// The backend could not be reached; the operation as a whole may be retried.
    BackendUnavailable,
}

impl StoreError {
    /// What `message` returns for each failure.
    pub open spec fn spec_message(self) -> Seq<char> {
        match self {
            StoreError::AlreadyExists => "record already exists"@,
            StoreError::NotFound => "record does not exist"@,
            StoreError::ReferenceNotFound => "the referenced pool does not exist"@,
            StoreError::AlreadySet => "a value is already set for this server"@,
            StoreError::NotSet => "no value is set for this server"@,
            StoreError::BackendUnavailable => "the backend could not be reached"@,
        }
    }

    /// A short description of the failure, fit for a user-facing message.
    pub fn message(&self) -> (r: &'static str)
        ensures
            r@ == self.spec_message(),
    {
        match self {
            StoreError::AlreadyExists => "record already exists",
            StoreError::NotFound => "record does not exist",
            StoreError::ReferenceNotFound => "the referenced pool does not exist",
            StoreError::AlreadySet => "a value is already set for this server",
            StoreError::NotSet => "no value is set for this server",
            StoreError::BackendUnavailable => "the backend could not be reached",
        }
    }
}

} // verus!
