//! A moderation record store: named ban pools that communities can share,
//! per-user bans within a pool, per-server exceptions that override a ban,
//! pool subscriptions, and per-server singleton settings (admin role,
//! notification channel).
//!
//! The store enforces the cross-record rules a schemaless backend does not
//! know about: pool names are unique, a ban or subscription may only be
//! created while its pool exists, key pairs are unique, and per-server
//! settings exist at most once. Every operation is a checked
//! validate-then-mutate step that returns a typed failure instead of
//! upserting or panicking.

mod clock;
pub mod errors;
pub mod laws;
pub mod protocol;
pub mod records;
pub mod store;

use vstd::prelude::*;

verus! {

/// The state a command layer threads through its handlers: one store
/// shared by every command.
pub struct Data {
    pub db: store::DB,
}

impl Data {
    /// A fresh context around an empty store.
    pub fn new() -> (d: Data)
        ensures
            d.db.wf(),
            d.db@.is_empty(),
    {
        Data { db: store::DB::new() }
    }
}

} // verus!
