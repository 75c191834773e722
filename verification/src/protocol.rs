use vstd::prelude::*;

use crate::errors::StoreError;

verus! {

// Every mutation is a validate-then-mutate sequence. A driver that keeps
// the collections behind a remote backend performs the round trips itself
// — existence check, insert, delete — and these functions turn what each
// round trip observed into the store's verdict, so the rules stay in one
// place whichever backend holds the records.

/// The verdict of an add against a unique key: a duplicate is surfaced to
/// the caller, never absorbed by an upsert.
pub fn unique_add_outcome(already_present: bool) -> (r: Result<(), StoreError>)
    ensures
        r is Ok <==> !already_present,
        r matches Err(e) ==> e == StoreError::AlreadyExists,
{
    if already_present {
        Err(StoreError::AlreadyExists)
    } else {
        Ok(())
    }
}

/// The verdict of an add that references a pool: a duplicate key is
/// reported first, a missing pool second, as the ban and subscription
/// adds check them in that order.
pub fn referencing_add_outcome(already_present: bool, pool_exists: bool) -> (r: Result<
    (),
    StoreError,
>)
    ensures
        r is Ok <==> !already_present && pool_exists,
        already_present ==> r == Err::<(), StoreError>(StoreError::AlreadyExists),
        !already_present && !pool_exists ==> r == Err::<(), StoreError>(
            StoreError::ReferenceNotFound,
        ),
{
    if already_present {
        Err(StoreError::AlreadyExists)
    } else if !pool_exists {
        Err(StoreError::ReferenceNotFound)
    } else {
        Ok(())
    }
}

/// The verdict of setting a per-server singleton: rejected while a value
/// is set — the caller must delete before replacing.
pub fn singleton_set_outcome(already_set: bool) -> (r: Result<(), StoreError>)
    ensures
        r is Ok <==> !already_set,
        r matches Err(e) ==> e == StoreError::AlreadySet,
{
    if already_set {
        Err(StoreError::AlreadySet)
    } else {
        Ok(())
    }
}

/// The verdict of a keyed delete, from the number of records the backend
/// removed: a delete succeeds only if it removed something.
pub fn deletion_outcome(deleted_count: u64) -> (r: Result<(), StoreError>)
    ensures
        r is Ok <==> deleted_count > 0,
        r matches Err(e) ==> e == StoreError::NotFound,
{
    if deleted_count > 0 {
        Ok(())
    } else {
        Err(StoreError::NotFound)
    }
}

/// The verdict of deleting a per-server singleton, from the number of
/// records the backend removed.
pub fn singleton_delete_outcome(deleted_count: u64) -> (r: Result<(), StoreError>)
    ensures
        r is Ok <==> deleted_count > 0,
        r matches Err(e) ==> e == StoreError::NotSet,
{
    if deleted_count > 0 {
        Ok(())
    } else {
        Err(StoreError::NotSet)
    }
}

/// The verdict of reading a per-server singleton: the found record, or
/// `NotSet` when the server has none.
pub fn singleton_get_outcome<T>(found: Option<T>) -> (r: Result<T, StoreError>)
    ensures
        r is Ok <==> found is Some,
        r matches Ok(c) ==> found == Some(c),
        r matches Err(e) ==> e == StoreError::NotSet,
{
    match found {
        Some(c) => Ok(c),
        None => Err(StoreError::NotSet),
    }
}

} // verus!
