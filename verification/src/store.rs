use vstd::prelude::*;
use vstd::string::StrSliceExecFns;

use crate::clock::now_millis;
use crate::errors::StoreError;
use crate::records::{AdminRole, Ban, BanException, BanPool, NotificationChannel, Subscription};

verus! {

/// The mathematical content of a store: one sequence per record collection.
#[verifier::ext_equal]
pub ghost struct StoreView {
    pub pools: Seq<BanPool>,
    pub bans: Seq<Ban>,
    pub exceptions: Seq<BanException>,
    pub subscriptions: Seq<Subscription>,
    pub notifications: Seq<NotificationChannel>,
    pub admin_roles: Seq<AdminRole>,
}

impl StoreView {
    /// Some pool carries this name.
    pub open spec fn has_pool(self, name: Seq<char>) -> bool {
        exists|i: int| 0 <= i < self.pools.len() && (#[trigger] self.pools[i]).pool_name@ == name
    }

    /// Some ban carries this `(user, pool)` pair.
    pub open spec fn has_ban(self, user: Seq<char>, pool: Seq<char>) -> bool {
        exists|i: int|
            0 <= i < self.bans.len() && (#[trigger] self.bans[i]).user_id@ == user
                && self.bans[i].pool_name@ == pool
    }

    /// Some exception carries this `(user, server)` pair.
    pub open spec fn has_exception(self, user: Seq<char>, server: Seq<char>) -> bool {
        exists|i: int|
            0 <= i < self.exceptions.len() && (#[trigger] self.exceptions[i]).user_id@ == user
                && self.exceptions[i].server_id@ == server
    }

    /// Some subscription carries this `(pool, server)` pair.
    pub open spec fn has_subscription(self, pool: Seq<char>, server: Seq<char>) -> bool {
        exists|i: int|
            0 <= i < self.subscriptions.len() && (#[trigger] self.subscriptions[i]).pool_name@
                == pool && self.subscriptions[i].server_id@ == server
    }

    /// A notification channel is set for this server.
    pub open spec fn has_notification(self, server: Seq<char>) -> bool {
        exists|i: int|
            0 <= i < self.notifications.len() && (#[trigger] self.notifications[i]).server_id@
                == server
    }

    /// An admin role is set for this server.
    pub open spec fn has_admin_role(self, server: Seq<char>) -> bool {
        exists|i: int|
            0 <= i < self.admin_roles.len() && (#[trigger] self.admin_roles[i]).server_id@ == server
    }

    /// The uniqueness rules the backend schema cannot express: pool names
    /// are unique, key pairs of bans, exceptions and subscriptions are
    /// unique, and the per-server settings are singletons.
    pub open spec fn wf(self) -> bool {
        &&& (forall|i: int, j: int|
            0 <= i < j < self.pools.len() ==> (#[trigger] self.pools[i]).pool_name@ != (
            #[trigger] self.pools[j]).pool_name@)
        &&& (forall|i: int, j: int|
            0 <= i < j < self.bans.len() ==> !((#[trigger] self.bans[i]).user_id@
                == (#[trigger] self.bans[j]).user_id@ && self.bans[i].pool_name@
                == self.bans[j].pool_name@))
        &&& (forall|i: int, j: int|
            0 <= i < j < self.exceptions.len() ==> !((#[trigger] self.exceptions[i]).user_id@
                == (#[trigger] self.exceptions[j]).user_id@ && self.exceptions[i].server_id@
                == self.exceptions[j].server_id@))
        &&& (forall|i: int, j: int|
            0 <= i < j < self.subscriptions.len() ==> !((
            #[trigger] self.subscriptions[i]).pool_name@ == (
            #[trigger] self.subscriptions[j]).pool_name@ && self.subscriptions[i].server_id@
                == self.subscriptions[j].server_id@))
        &&& (forall|i: int, j: int|
            0 <= i < j < self.notifications.len() ==> (
            #[trigger] self.notifications[i]).server_id@ != (
            #[trigger] self.notifications[j]).server_id@)
        &&& (forall|i: int, j: int|
            0 <= i < j < self.admin_roles.len() ==> (#[trigger] self.admin_roles[i]).server_id@
                != (#[trigger] self.admin_roles[j]).server_id@)
    }

    /// No record of any kind is present.
    pub open spec fn is_empty(self) -> bool {
        &&& self.pools.len() == 0
        &&& self.bans.len() == 0
        &&& self.exceptions.len() == 0
        &&& self.subscriptions.len() == 0
        &&& self.notifications.len() == 0
        &&& self.admin_roles.len() == 0
    }

    /// This view with the pool collection replaced and all others kept.
    pub open spec fn with_pools(self, pools: Seq<BanPool>) -> StoreView {
        StoreView {
            pools,
            bans: self.bans,
            exceptions: self.exceptions,
            subscriptions: self.subscriptions,
            notifications: self.notifications,
            admin_roles: self.admin_roles,
        }
    }

    /// This view with the ban collection replaced and all others kept.
    pub open spec fn with_bans(self, bans: Seq<Ban>) -> StoreView {
        StoreView {
            pools: self.pools,
            bans,
            exceptions: self.exceptions,
            subscriptions: self.subscriptions,
            notifications: self.notifications,
            admin_roles: self.admin_roles,
        }
    }

    /// This view with the exception collection replaced and all others kept.
    pub open spec fn with_exceptions(self, exceptions: Seq<BanException>) -> StoreView {
        StoreView {
            pools: self.pools,
            bans: self.bans,
            exceptions,
            subscriptions: self.subscriptions,
            notifications: self.notifications,
            admin_roles: self.admin_roles,
        }
    }

    /// This view with the subscription collection replaced and all others kept.
    pub open spec fn with_subscriptions(self, subscriptions: Seq<Subscription>) -> StoreView {
        StoreView {
            pools: self.pools,
            bans: self.bans,
            exceptions: self.exceptions,
            subscriptions,
            notifications: self.notifications,
            admin_roles: self.admin_roles,
        }
    }

    /// This view with the notification settings replaced and all others kept.
    pub open spec fn with_notifications(self, notifications: Seq<NotificationChannel>) -> StoreView {
        StoreView {
            pools: self.pools,
            bans: self.bans,
            exceptions: self.exceptions,
            subscriptions: self.subscriptions,
            notifications,
            admin_roles: self.admin_roles,
        }
    }

    /// This view with the admin role settings replaced and all others kept.
    pub open spec fn with_admin_roles(self, admin_roles: Seq<AdminRole>) -> StoreView {
        StoreView {
            pools: self.pools,
            bans: self.bans,
            exceptions: self.exceptions,
            subscriptions: self.subscriptions,
            notifications: self.notifications,
            admin_roles,
        }
    }
}

/// One pool was appended, named and described by the call's arguments,
/// and nothing else changed.
pub open spec fn pool_added(pre: StoreView, post: StoreView, name: Seq<char>, desc: Seq<char>) -> bool {
    &&& post.pools.len() == pre.pools.len() + 1
    &&& post.pools.drop_last() == pre.pools
    &&& post.pools.last().pool_name@ == name
    &&& post.pools.last().pool_desc@ == desc
    &&& post == pre.with_pools(post.pools)
}

/// The one pool with this name was removed, and nothing else changed;
/// in particular every dependent ban and subscription is left in place.
pub open spec fn pool_removed(pre: StoreView, post: StoreView, name: Seq<char>) -> bool {
    exists|i: int|
        0 <= i < pre.pools.len() && (#[trigger] pre.pools[i]).pool_name@ == name && post
            == pre.with_pools(pre.pools.remove(i))
}

/// One ban was appended, carrying the call's arguments, and nothing else
/// changed.
pub open spec fn ban_added(
    pre: StoreView,
    post: StoreView,
    user: Seq<char>,
    pool: Seq<char>,
    reason: Seq<char>,
    creator: Seq<char>,
) -> bool {
    &&& post.bans.len() == pre.bans.len() + 1
    &&& post.bans.drop_last() == pre.bans
    &&& post.bans.last().user_id@ == user
    &&& post.bans.last().pool_name@ == pool
    &&& post.bans.last().reason@ == reason
    &&& post.bans.last().creator_id@ == creator
    &&& post == pre.with_bans(post.bans)
}

/// The one ban with this `(user, pool)` pair was removed, and nothing
/// else changed.
pub open spec fn ban_removed(pre: StoreView, post: StoreView, user: Seq<char>, pool: Seq<char>) -> bool {
    exists|i: int|
        0 <= i < pre.bans.len() && (#[trigger] pre.bans[i]).user_id@ == user
            && pre.bans[i].pool_name@ == pool && post == pre.with_bans(pre.bans.remove(i))
}

/// The bans of one user across all pools, in ledger order.
pub open spec fn user_bans(bans: Seq<Ban>, user: Seq<char>) -> Seq<Ban>
    decreases bans.len(),
{
    if bans.len() == 0 {
        Seq::empty()
    } else if bans.last().user_id@ == user {
        user_bans(bans.drop_last(), user).push(bans.last())
    } else {
        user_bans(bans.drop_last(), user)
    }
}

/// The bans within one pool, in ledger order.
pub open spec fn pool_bans(bans: Seq<Ban>, pool: Seq<char>) -> Seq<Ban>
    decreases bans.len(),
{
    if bans.len() == 0 {
        Seq::empty()
    } else if bans.last().pool_name@ == pool {
        pool_bans(bans.drop_last(), pool).push(bans.last())
    } else {
        pool_bans(bans.drop_last(), pool)
    }
}

/// The bans of one user within one pool, in ledger order.
pub open spec fn user_pool_bans(bans: Seq<Ban>, user: Seq<char>, pool: Seq<char>) -> Seq<Ban>
    decreases bans.len(),
{
    if bans.len() == 0 {
        Seq::empty()
    } else if bans.last().user_id@ == user && bans.last().pool_name@ == pool {
        user_pool_bans(bans.drop_last(), user, pool).push(bans.last())
    } else {
        user_pool_bans(bans.drop_last(), user, pool)
    }
}

/// One exception was appended, carrying the call's arguments, and nothing
/// else changed.
pub open spec fn exception_added(
    pre: StoreView,
    post: StoreView,
    user: Seq<char>,
    server: Seq<char>,
    creator: Seq<char>,
) -> bool {
    &&& post.exceptions.len() == pre.exceptions.len() + 1
    &&& post.exceptions.drop_last() == pre.exceptions
    &&& post.exceptions.last().user_id@ == user
    &&& post.exceptions.last().server_id@ == server
    &&& post.exceptions.last().creator_id@ == creator
    &&& post == pre.with_exceptions(post.exceptions)
}

/// The one exception with this `(user, server)` pair was removed, and
/// nothing else changed.
pub open spec fn exception_removed(
    pre: StoreView,
    post: StoreView,
    user: Seq<char>,
    server: Seq<char>,
) -> bool {
    exists|i: int|
        0 <= i < pre.exceptions.len() && (#[trigger] pre.exceptions[i]).user_id@ == user
            && pre.exceptions[i].server_id@ == server && post == pre.with_exceptions(
            pre.exceptions.remove(i),
        )
}

/// The exceptions one server holds, in insertion order.
pub open spec fn server_exceptions(excs: Seq<BanException>, server: Seq<char>) -> Seq<BanException>
    decreases excs.len(),
{
    if excs.len() == 0 {
        Seq::empty()
    } else if excs.last().server_id@ == server {
        server_exceptions(excs.drop_last(), server).push(excs.last())
    } else {
        server_exceptions(excs.drop_last(), server)
    }
}

/// One subscription was appended, carrying the call's arguments, and
/// nothing else changed.
pub open spec fn subscription_added(
    pre: StoreView,
    post: StoreView,
    pool: Seq<char>,
    server: Seq<char>,
    creator: Seq<char>,
    level: Seq<char>,
) -> bool {
    &&& post.subscriptions.len() == pre.subscriptions.len() + 1
    &&& post.subscriptions.drop_last() == pre.subscriptions
    &&& post.subscriptions.last().pool_name@ == pool
    &&& post.subscriptions.last().server_id@ == server
    &&& post.subscriptions.last().creator_id@ == creator
    &&& post.subscriptions.last().subscription_level@ == level
    &&& post == pre.with_subscriptions(post.subscriptions)
}

/// The one subscription with this `(pool, server)` pair was removed, and
/// nothing else changed.
pub open spec fn subscription_removed(
    pre: StoreView,
    post: StoreView,
    pool: Seq<char>,
    server: Seq<char>,
) -> bool {
    exists|i: int|
        0 <= i < pre.subscriptions.len() && (#[trigger] pre.subscriptions[i]).pool_name@ == pool
            && pre.subscriptions[i].server_id@ == server && post == pre.with_subscriptions(
            pre.subscriptions.remove(i),
        )
}

/// The subscriptions one server holds: the pools it follows.
pub open spec fn server_subscriptions(subs: Seq<Subscription>, server: Seq<char>) -> Seq<
    Subscription,
>
    decreases subs.len(),
{
    if subs.len() == 0 {
        Seq::empty()
    } else if subs.last().server_id@ == server {
        server_subscriptions(subs.drop_last(), server).push(subs.last())
    } else {
        server_subscriptions(subs.drop_last(), server)
    }
}

/// The subscriptions to one pool: the fan-out list of servers following it.
pub open spec fn pool_subscriptions(subs: Seq<Subscription>, pool: Seq<char>) -> Seq<Subscription>
    decreases subs.len(),
{
    if subs.len() == 0 {
        Seq::empty()
    } else if subs.last().pool_name@ == pool {
        pool_subscriptions(subs.drop_last(), pool).push(subs.last())
    } else {
        pool_subscriptions(subs.drop_last(), pool)
    }
}

/// A notification channel was set for this server, carrying the call's
/// arguments, and nothing else changed.
pub open spec fn notification_set(
    pre: StoreView,
    post: StoreView,
    server: Seq<char>,
    channel: Seq<char>,
    author: Seq<char>,
) -> bool {
    &&& post.notifications.len() == pre.notifications.len() + 1
    &&& post.notifications.drop_last() == pre.notifications
    &&& post.notifications.last().server_id@ == server
    &&& post.notifications.last().channel_id@ == channel
    &&& post.notifications.last().author_id@ == author
    &&& post == pre.with_notifications(post.notifications)
}

/// The notification channel of this server was removed, and nothing else
/// changed.
pub open spec fn notification_removed(pre: StoreView, post: StoreView, server: Seq<char>) -> bool {
    exists|i: int|
        0 <= i < pre.notifications.len() && (#[trigger] pre.notifications[i]).server_id@ == server
            && post == pre.with_notifications(pre.notifications.remove(i))
}

/// An admin role was set for this server, carrying the call's arguments,
/// and nothing else changed.
pub open spec fn admin_role_set(
    pre: StoreView,
    post: StoreView,
    server: Seq<char>,
    role: Seq<char>,
    author: Seq<char>,
) -> bool {
    &&& post.admin_roles.len() == pre.admin_roles.len() + 1
    &&& post.admin_roles.drop_last() == pre.admin_roles
    &&& post.admin_roles.last().server_id@ == server
    &&& post.admin_roles.last().role_id@ == role
    &&& post.admin_roles.last().author_id@ == author
    &&& post == pre.with_admin_roles(post.admin_roles)
}

/// The admin role of this server was removed, and nothing else changed.
pub open spec fn admin_role_removed(pre: StoreView, post: StoreView, server: Seq<char>) -> bool {
    exists|i: int|
        0 <= i < pre.admin_roles.len() && (#[trigger] pre.admin_roles[i]).server_id@ == server
            && post == pre.with_admin_roles(pre.admin_roles.remove(i))
}

/// `prefix` begins `s`.
pub open spec fn is_prefix_of(prefix: Seq<char>, s: Seq<char>) -> bool {
    prefix.len() <= s.len() && s.subrange(0, prefix.len() as int) == prefix
}

/// The names of the pools that begin with `prefix`, in pool order.
pub open spec fn matching_pool_names(pools: Seq<BanPool>, prefix: Seq<char>) -> Seq<Seq<char>>
    decreases pools.len(),
{
    if pools.len() == 0 {
        Seq::empty()
    } else if is_prefix_of(prefix, pools.last().pool_name@) {
        matching_pool_names(pools.drop_last(), prefix).push(pools.last().pool_name@)
    } else {
        matching_pool_names(pools.drop_last(), prefix)
    }
}

/// The views of a sequence of names, in order.
pub open spec fn name_views(names: Seq<String>) -> Seq<Seq<char>>
    decreases names.len(),
{
    if names.len() == 0 {
        Seq::empty()
    } else {
        name_views(names.drop_last()).push(names.last()@)
    }
}

/// A handle to the six record collections, held in memory and mutated
/// only through the checked operations below.
pub struct DB {
    pools: Vec<BanPool>,
    bans: Vec<Ban>,
    exceptions: Vec<BanException>,
    subscriptions: Vec<Subscription>,
    notifications: Vec<NotificationChannel>,
    admin_roles: Vec<AdminRole>,
}

impl View for DB {
    type V = StoreView;

    closed spec fn view(&self) -> StoreView {
        StoreView {
            pools: self.pools@,
            bans: self.bans@,
            exceptions: self.exceptions@,
            subscriptions: self.subscriptions@,
            notifications: self.notifications@,
            admin_roles: self.admin_roles@,
        }
    }
}

impl DB {
    /// The store's invariant: its collections obey the uniqueness rules.
    pub open spec fn wf(self) -> bool {
        self@.wf()
    }

    /// A store with no records at all.
    pub fn new() -> (s: DB)
        ensures
            s.wf(),
            s@.is_empty(),
    {
        DB {
            pools: Vec::new(),
            bans: Vec::new(),
            exceptions: Vec::new(),
            subscriptions: Vec::new(),
            notifications: Vec::new(),
            admin_roles: Vec::new(),
        }
    }

    /// The index of the pool with this name, if one is present.
    fn find_pool(&self, name: &String) -> (r: Option<usize>)
        ensures
            r matches Some(i) ==> i < self@.pools.len() && self@.pools[i as int].pool_name@
                == name@,
            r is None ==> !self@.has_pool(name@),
    {
        let mut i: usize = 0;
        while i < self.pools.len()
            invariant
                i <= self.pools.len(),
                forall|j: int| 0 <= j < i ==> (#[trigger] self@.pools[j]).pool_name@ != name@,
            decreases self.pools.len() - i,
        {
            if self.pools[i].pool_name == *name {
                return Some(i);
            }
            i += 1;
        }
        None
    }

    /// Registers a new pool; rejects the name of a live pool rather than
    /// upserting.
    pub fn add_pool(&mut self, pool_name: &str, pool_desc: &str) -> (r: Result<(), StoreError>)
        requires
            old(self).wf(),
        ensures
            final(self).wf(),
            r is Ok <==> !old(self)@.has_pool(pool_name@),
            r matches Err(e) ==> e == StoreError::AlreadyExists && *final(self) == *old(self),
            r is Ok ==> pool_added(old(self)@, final(self)@, pool_name@, pool_desc@),
    {
        let name = pool_name.to_owned();
        if self.find_pool(&name).is_some() {
            return Err(StoreError::AlreadyExists);
        }
        let rec = BanPool { pool_name: name, pool_desc: pool_desc.to_owned(), created_at: now_millis() };
        self.pools.push(rec);
        proof {
            assert(self@ =~= old(self)@.with_pools(self@.pools));
            assert(self@.pools.drop_last() =~= old(self)@.pools);
            assert forall|i: int, j: int| 0 <= i < j < self@.pools.len() implies (
            #[trigger] self@.pools[i]).pool_name@ != (#[trigger] self@.pools[j]).pool_name@ by {
                if j == self@.pools.len() - 1 && self@.pools[i].pool_name@ == pool_name@ {
                    assert(old(self)@.pools[i].pool_name@ == pool_name@);
                    assert(old(self)@.has_pool(pool_name@));
                }
            }
        }
        Ok(())
    }

    /// Deletes the pool with this name; succeeds exactly when one is
    /// present. Dependent bans and subscriptions are left orphaned.
    pub fn delete_pool(&mut self, pool_name: &str) -> (r: Result<(), StoreError>)
        requires
            old(self).wf(),
        ensures
            final(self).wf(),
            r is Ok <==> old(self)@.has_pool(pool_name@),
            r matches Err(e) ==> e == StoreError::NotFound && *final(self) == *old(self),
            r is Ok ==> pool_removed(old(self)@, final(self)@, pool_name@),
            r is Ok ==> !final(self)@.has_pool(pool_name@),
    {
        let name = pool_name.to_owned();
        match self.find_pool(&name) {
            None => Err(StoreError::NotFound),
            Some(i) => {
                self.pools.remove(i);
                proof {
                    let pre = old(self)@;
                    pre.pools.remove_ensures(i as int);
                    assert(self@ =~= pre.with_pools(pre.pools.remove(i as int)));
                    assert(pre.pools[i as int].pool_name@ == pool_name@);
                    assert(pool_removed(pre, self@, pool_name@));
                    assert forall|p: int, q: int| 0 <= p < q < self@.pools.len() implies (
                    #[trigger] self@.pools[p]).pool_name@ != (
                    #[trigger] self@.pools[q]).pool_name@ by {
                        let p0: int = if p < i as int { p } else { p + 1 };
                        let q0: int = if q < i as int { q } else { q + 1 };
                        assert(self@.pools[p] == pre.pools[p0]);
                        assert(self@.pools[q] == pre.pools[q0]);
                    }
                    assert forall|k: int| 0 <= k < self@.pools.len() implies (
                    #[trigger] self@.pools[k]).pool_name@ != pool_name@ by {
                        let k0: int = if k < i as int { k } else { k + 1 };
                        assert(self@.pools[k] == pre.pools[k0]);
                    }
                }
                Ok(())
            },
        }
    }

    /// The index of the ban with this `(user, pool)` pair, if one is present.
    fn find_ban(&self, user: &String, pool: &String) -> (r: Option<usize>)
        ensures
            r matches Some(i) ==> i < self@.bans.len() && self@.bans[i as int].user_id@ == user@
                && self@.bans[i as int].pool_name@ == pool@,
            r is None ==> !self@.has_ban(user@, pool@),
    {
        let mut i: usize = 0;
        while i < self.bans.len()
            invariant
                i <= self.bans.len(),
                forall|j: int|
                    0 <= j < i ==> !((#[trigger] self@.bans[j]).user_id@ == user@
                        && self@.bans[j].pool_name@ == pool@),
            decreases self.bans.len() - i,
        {
            if self.bans[i].user_id == *user && self.bans[i].pool_name == *pool {
                return Some(i);
            }
            i += 1;
        }
        None
    }

    /// Records a ban of `user_id` within `pool_name`. Rejects a duplicate
    /// `(user, pool)` pair first; only then requires the target pool to
    /// exist; only then inserts.
    pub fn add_ban(
        &mut self,
        user_id: &str,
        pool_name: &str,
        reason: &str,
        author_id: &str,
    ) -> (r: Result<(), StoreError>)
        requires
            old(self).wf(),
        ensures
            final(self).wf(),
            r is Ok <==> !old(self)@.has_ban(user_id@, pool_name@) && old(self)@.has_pool(
                pool_name@,
            ),
            old(self)@.has_ban(user_id@, pool_name@) ==> r == Err::<(), StoreError>(
                StoreError::AlreadyExists,
            ),
            !old(self)@.has_ban(user_id@, pool_name@) && !old(self)@.has_pool(pool_name@) ==> r
                == Err::<(), StoreError>(StoreError::ReferenceNotFound),
            r is Err ==> *final(self) == *old(self),
            r is Ok ==> ban_added(old(self)@, final(self)@, user_id@, pool_name@, reason@, author_id@),
    {
        let user = user_id.to_owned();
        let pool = pool_name.to_owned();
        if self.find_ban(&user, &pool).is_some() {
            return Err(StoreError::AlreadyExists);
        }
        if self.find_pool(&pool).is_none() {
            return Err(StoreError::ReferenceNotFound);
        }
        let rec = Ban {
            user_id: user,
            pool_name: pool,
            reason: reason.to_owned(),
            creator_id: author_id.to_owned(),
            created_at: now_millis(),
        };
        self.bans.push(rec);
        proof {
            assert(self@ =~= old(self)@.with_bans(self@.bans));
            assert(self@.bans.drop_last() =~= old(self)@.bans);
            assert forall|i: int, j: int| 0 <= i < j < self@.bans.len() implies !((
            #[trigger] self@.bans[i]).user_id@ == (#[trigger] self@.bans[j]).user_id@
                && self@.bans[i].pool_name@ == self@.bans[j].pool_name@) by {
                if j == self@.bans.len() - 1 && self@.bans[i].user_id@ == user_id@
                    && self@.bans[i].pool_name@ == pool_name@ {
                    assert(old(self)@.bans[i].user_id@ == user_id@);
                    assert(old(self)@.bans[i].pool_name@ == pool_name@);
                    assert(old(self)@.has_ban(user_id@, pool_name@));
                }
            }
        }
        Ok(())
    }

    /// Deletes the ban with this `(user, pool)` pair; succeeds exactly
    /// when one is present.
    pub fn delete_ban(&mut self, user_id: &str, pool_name: &str) -> (r: Result<(), StoreError>)
        requires
            old(self).wf(),
        ensures
            final(self).wf(),
            r is Ok <==> old(self)@.has_ban(user_id@, pool_name@),
            r matches Err(e) ==> e == StoreError::NotFound && *final(self) == *old(self),
            r is Ok ==> ban_removed(old(self)@, final(self)@, user_id@, pool_name@),
            r is Ok ==> !final(self)@.has_ban(user_id@, pool_name@),
    {
        let user = user_id.to_owned();
        let pool = pool_name.to_owned();
        match self.find_ban(&user, &pool) {
            None => Err(StoreError::NotFound),
            Some(i) => {
                self.bans.remove(i);
                proof {
                    let pre = old(self)@;
                    pre.bans.remove_ensures(i as int);
                    assert(self@ =~= pre.with_bans(pre.bans.remove(i as int)));
                    assert(ban_removed(pre, self@, user_id@, pool_name@));
                    assert forall|p: int, q: int| 0 <= p < q < self@.bans.len() implies !((
                    #[trigger] self@.bans[p]).user_id@ == (#[trigger] self@.bans[q]).user_id@
                        && self@.bans[p].pool_name@ == self@.bans[q].pool_name@) by {
                        let p0: int = if p < i as int { p } else { p + 1 };
                        let q0: int = if q < i as int { q } else { q + 1 };
                        assert(self@.bans[p] == pre.bans[p0]);
                        assert(self@.bans[q] == pre.bans[q0]);
                    }
                    assert forall|k: int| 0 <= k < self@.bans.len() implies !((
                    #[trigger] self@.bans[k]).user_id@ == user_id@ && self@.bans[k].pool_name@
                        == pool_name@) by {
                        let k0: int = if k < i as int { k } else { k + 1 };
                        assert(self@.bans[k] == pre.bans[k0]);
                    }
                }
                Ok(())
            },
        }
    }

    /// A snapshot of the whole ban ledger, in insertion order.
    pub fn list_bans(&self) -> (r: Vec<Ban>)
        ensures
            r@ == self@.bans,
    {
        let mut out: Vec<Ban> = Vec::new();
        let mut i: usize = 0;
        while i < self.bans.len()
            invariant
                i <= self.bans.len(),
                out@ =~= self@.bans.subrange(0, i as int),
            decreases self.bans.len() - i,
        {
            out.push(self.bans[i].clone());
            proof {
                assert(self@.bans.subrange(0, i as int + 1) =~= self@.bans.subrange(
                    0,
                    i as int,
                ).push(self@.bans[i as int]));
            }
            i += 1;
        }
        proof {
            assert(out@ =~= self@.bans);
        }
        out
    }

    /// Every ban of this user, across all pools.
    pub fn get_user_bans(&self, user_id: &str) -> (r: Vec<Ban>)
        ensures
            r@ == user_bans(self@.bans, user_id@),
    {
        let user = user_id.to_owned();
        let mut out: Vec<Ban> = Vec::new();
        let mut i: usize = 0;
        while i < self.bans.len()
            invariant
                i <= self.bans.len(),
                user@ == user_id@,
                out@ =~= user_bans(self@.bans.subrange(0, i as int), user_id@),
            decreases self.bans.len() - i,
        {
            proof {
                assert(self@.bans.subrange(0, i as int + 1).drop_last() =~= self@.bans.subrange(
                    0,
                    i as int,
                ));
                assert(self@.bans.subrange(0, i as int + 1).last() == self@.bans[i as int]);
            }
            if self.bans[i].user_id == user {
                out.push(self.bans[i].clone());
            }
            i += 1;
        }
        proof {
            assert(self@.bans.subrange(0, self.bans.len() as int) =~= self@.bans);
        }
        out
    }

    /// Every ban within this pool.
    pub fn get_pool_bans(&self, pool_name: &str) -> (r: Vec<Ban>)
        ensures
            r@ == pool_bans(self@.bans, pool_name@),
    {
        let pool = pool_name.to_owned();
        let mut out: Vec<Ban> = Vec::new();
        let mut i: usize = 0;
        while i < self.bans.len()
            invariant
                i <= self.bans.len(),
                pool@ == pool_name@,
                out@ =~= pool_bans(self@.bans.subrange(0, i as int), pool_name@),
            decreases self.bans.len() - i,
        {
            proof {
                assert(self@.bans.subrange(0, i as int + 1).drop_last() =~= self@.bans.subrange(
                    0,
                    i as int,
                ));
                assert(self@.bans.subrange(0, i as int + 1).last() == self@.bans[i as int]);
            }
            if self.bans[i].pool_name == pool {
                out.push(self.bans[i].clone());
            }
            i += 1;
        }
        proof {
            assert(self@.bans.subrange(0, self.bans.len() as int) =~= self@.bans);
        }
        out
    }

    /// The bans matching both this user and this pool. While the store's
    /// invariant holds there is at most one.
    pub fn get_ban_from_pool(&self, user_id: &str, pool_name: &str) -> (r: Vec<Ban>)
        ensures
            r@ == user_pool_bans(self@.bans, user_id@, pool_name@),
    {
        let user = user_id.to_owned();
        let pool = pool_name.to_owned();
        let mut out: Vec<Ban> = Vec::new();
        let mut i: usize = 0;
        while i < self.bans.len()
            invariant
                i <= self.bans.len(),
                user@ == user_id@,
                pool@ == pool_name@,
                out@ =~= user_pool_bans(self@.bans.subrange(0, i as int), user_id@, pool_name@),
            decreases self.bans.len() - i,
        {
            proof {
                assert(self@.bans.subrange(0, i as int + 1).drop_last() =~= self@.bans.subrange(
                    0,
                    i as int,
                ));
                assert(self@.bans.subrange(0, i as int + 1).last() == self@.bans[i as int]);
            }
            if self.bans[i].user_id == user && self.bans[i].pool_name == pool {
                out.push(self.bans[i].clone());
            }
            i += 1;
        }
        proof {
            assert(self@.bans.subrange(0, self.bans.len() as int) =~= self@.bans);
        }
        out
    }

    /// The index of the exception with this `(user, server)` pair, if one
    /// is present.
    fn find_exception(&self, user: &String, server: &String) -> (r: Option<usize>)
        ensures
            r matches Some(i) ==> i < self@.exceptions.len() && self@.exceptions[i as int].user_id@
                == user@ && self@.exceptions[i as int].server_id@ == server@,
            r is None ==> !self@.has_exception(user@, server@),
    {
        let mut i: usize = 0;
        while i < self.exceptions.len()
            invariant
                i <= self.exceptions.len(),
                forall|j: int|
                    0 <= j < i ==> !((#[trigger] self@.exceptions[j]).user_id@ == user@
                        && self@.exceptions[j].server_id@ == server@),
            decreases self.exceptions.len() - i,
        {
            if self.exceptions[i].user_id == *user && self.exceptions[i].server_id == *server {
                return Some(i);
            }
            i += 1;
        }
        None
    }

    /// Exempts a user from enforcement on one server; rejects a duplicate
    /// `(user, server)` pair.
    pub fn add_exception(
        &mut self,
        user_id: &str,
        server_id: &str,
        creator_id: &str,
    ) -> (r: Result<(), StoreError>)
        requires
            old(self).wf(),
        ensures
            final(self).wf(),
            r is Ok <==> !old(self)@.has_exception(user_id@, server_id@),
            r matches Err(e) ==> e == StoreError::AlreadyExists && *final(self) == *old(self),
            r is Ok ==> exception_added(old(self)@, final(self)@, user_id@, server_id@, creator_id@),
    {
        let user = user_id.to_owned();
        let server = server_id.to_owned();
        if self.find_exception(&user, &server).is_some() {
            return Err(StoreError::AlreadyExists);
        }
        let rec = BanException {
            user_id: user,
            server_id: server,
            creator_id: creator_id.to_owned(),
            created_at: now_millis(),
        };
        self.exceptions.push(rec);
        proof {
            assert(self@ =~= old(self)@.with_exceptions(self@.exceptions));
            assert(self@.exceptions.drop_last() =~= old(self)@.exceptions);
            assert forall|i: int, j: int| 0 <= i < j < self@.exceptions.len() implies !((
            #[trigger] self@.exceptions[i]).user_id@ == (#[trigger] self@.exceptions[j]).user_id@
                && self@.exceptions[i].server_id@ == self@.exceptions[j].server_id@) by {
                if j == self@.exceptions.len() - 1 && self@.exceptions[i].user_id@ == user_id@
                    && self@.exceptions[i].server_id@ == server_id@ {
                    assert(old(self)@.exceptions[i].user_id@ == user_id@);
                    assert(old(self)@.exceptions[i].server_id@ == server_id@);
                    assert(old(self)@.has_exception(user_id@, server_id@));
                }
            }
        }
        Ok(())
    }

    /// Deletes the exception with this `(user, server)` pair; succeeds
    /// exactly when one is present.
    pub fn delete_exception(&mut self, user_id: &str, server_id: &str) -> (r: Result<
        (),
        StoreError,
    >)
        requires
            old(self).wf(),
        ensures
            final(self).wf(),
            r is Ok <==> old(self)@.has_exception(user_id@, server_id@),
            r matches Err(e) ==> e == StoreError::NotFound && *final(self) == *old(self),
            r is Ok ==> exception_removed(old(self)@, final(self)@, user_id@, server_id@),
            r is Ok ==> !final(self)@.has_exception(user_id@, server_id@),
    {
        let user = user_id.to_owned();
        let server = server_id.to_owned();
        match self.find_exception(&user, &server) {
            None => Err(StoreError::NotFound),
            Some(i) => {
                self.exceptions.remove(i);
                proof {
                    let pre = old(self)@;
                    pre.exceptions.remove_ensures(i as int);
                    assert(self@ =~= pre.with_exceptions(pre.exceptions.remove(i as int)));
                    assert(exception_removed(pre, self@, user_id@, server_id@));
                    assert forall|p: int, q: int| 0 <= p < q < self@.exceptions.len() implies !((
                    #[trigger] self@.exceptions[p]).user_id@ == (
                    #[trigger] self@.exceptions[q]).user_id@ && self@.exceptions[p].server_id@
                        == self@.exceptions[q].server_id@) by {
                        let p0: int = if p < i as int { p } else { p + 1 };
                        let q0: int = if q < i as int { q } else { q + 1 };
                        assert(self@.exceptions[p] == pre.exceptions[p0]);
                        assert(self@.exceptions[q] == pre.exceptions[q0]);
                    }
                    assert forall|k: int| 0 <= k < self@.exceptions.len() implies !((
                    #[trigger] self@.exceptions[k]).user_id@ == user_id@
                        && self@.exceptions[k].server_id@ == server_id@) by {
                        let k0: int = if k < i as int { k } else { k + 1 };
                        assert(self@.exceptions[k] == pre.exceptions[k0]);
                    }
                }
                Ok(())
            },
        }
    }

    /// Every exception held by this server.
    pub fn list_exceptions(&self, server_id: &str) -> (r: Vec<BanException>)
        ensures
            r@ == server_exceptions(self@.exceptions, server_id@),
    {
        let server = server_id.to_owned();
        let mut out: Vec<BanException> = Vec::new();
        let mut i: usize = 0;
        while i < self.exceptions.len()
            invariant
                i <= self.exceptions.len(),
                server@ == server_id@,
                out@ =~= server_exceptions(self@.exceptions.subrange(0, i as int), server_id@),
            decreases self.exceptions.len() - i,
        {
            proof {
                assert(self@.exceptions.subrange(0, i as int + 1).drop_last()
                    =~= self@.exceptions.subrange(0, i as int));
                assert(self@.exceptions.subrange(0, i as int + 1).last()
                    == self@.exceptions[i as int]);
            }
            if self.exceptions[i].server_id == server {
                out.push(self.exceptions[i].clone());
            }
            i += 1;
        }
        proof {
            assert(self@.exceptions.subrange(0, self.exceptions.len() as int)
                =~= self@.exceptions);
        }
        out
    }

    /// Whether this user is exempt on this server: the predicate an
    /// enforcement layer consults before honoring a ban.
    pub fn is_user_exception(&self, server_id: &str, user_id: &str) -> (r: bool)
        ensures
            r == self@.has_exception(user_id@, server_id@),
    {
        let user = user_id.to_owned();
        let server = server_id.to_owned();
        match self.find_exception(&user, &server) {
            Some(i) => {
                proof {
                    assert(self@.has_exception(user_id@, server_id@));
                }
                true
            },
            None => false,
        }
    }

    /// The index of the subscription with this `(pool, server)` pair, if
    /// one is present.
    fn find_subscription(&self, pool: &String, server: &String) -> (r: Option<usize>)
        ensures
            r matches Some(i) ==> i < self@.subscriptions.len()
                && self@.subscriptions[i as int].pool_name@ == pool@
                && self@.subscriptions[i as int].server_id@ == server@,
            r is None ==> !self@.has_subscription(pool@, server@),
    {
        let mut i: usize = 0;
        while i < self.subscriptions.len()
            invariant
                i <= self.subscriptions.len(),
                forall|j: int|
                    0 <= j < i ==> !((#[trigger] self@.subscriptions[j]).pool_name@ == pool@
                        && self@.subscriptions[j].server_id@ == server@),
            decreases self.subscriptions.len() - i,
        {
            if self.subscriptions[i].pool_name == *pool && self.subscriptions[i].server_id
                == *server {
                return Some(i);
            }
            i += 1;
        }
        None
    }

    /// Subscribes a server to a pool. Rejects a duplicate `(pool, server)`
    /// pair first; only then requires the target pool to exist; only then
    /// inserts.
    pub fn add_subscription(
        &mut self,
        pool_name: &str,
        server_id: &str,
        creator_id: &str,
        subscription_level: &str,
    ) -> (r: Result<(), StoreError>)
        requires
            old(self).wf(),
        ensures
            final(self).wf(),
            r is Ok <==> !old(self)@.has_subscription(pool_name@, server_id@)
                && old(self)@.has_pool(pool_name@),
            old(self)@.has_subscription(pool_name@, server_id@) ==> r == Err::<(), StoreError>(
                StoreError::AlreadyExists,
            ),
            !old(self)@.has_subscription(pool_name@, server_id@) && !old(self)@.has_pool(
                pool_name@,
            ) ==> r == Err::<(), StoreError>(StoreError::ReferenceNotFound),
            r is Err ==> *final(self) == *old(self),
            r is Ok ==> subscription_added(
                old(self)@,
                final(self)@,
                pool_name@,
                server_id@,
                creator_id@,
                subscription_level@,
            ),
    {
        let pool = pool_name.to_owned();
        let server = server_id.to_owned();
        if self.find_subscription(&pool, &server).is_some() {
            return Err(StoreError::AlreadyExists);
        }
        if self.find_pool(&pool).is_none() {
            return Err(StoreError::ReferenceNotFound);
        }
        let rec = Subscription {
            pool_name: pool,
            subscription_level: subscription_level.to_owned(),
            server_id: server,
            creator_id: creator_id.to_owned(),
            created_at: now_millis(),
        };
        self.subscriptions.push(rec);
        proof {
            assert(self@ =~= old(self)@.with_subscriptions(self@.subscriptions));
            assert(self@.subscriptions.drop_last() =~= old(self)@.subscriptions);
            assert forall|i: int, j: int| 0 <= i < j < self@.subscriptions.len() implies !((
            #[trigger] self@.subscriptions[i]).pool_name@ == (
            #[trigger] self@.subscriptions[j]).pool_name@ && self@.subscriptions[i].server_id@
                == self@.subscriptions[j].server_id@) by {
                if j == self@.subscriptions.len() - 1 && self@.subscriptions[i].pool_name@
                    == pool_name@ && self@.subscriptions[i].server_id@ == server_id@ {
                    assert(old(self)@.subscriptions[i].pool_name@ == pool_name@);
                    assert(old(self)@.subscriptions[i].server_id@ == server_id@);
                    assert(old(self)@.has_subscription(pool_name@, server_id@));
                }
            }
        }
        Ok(())
    }

    /// Deletes the subscription with this `(pool, server)` pair; succeeds
    /// exactly when one is present.
    pub fn delete_subscription(&mut self, pool_name: &str, server_id: &str) -> (r: Result<
        (),
        StoreError,
    >)
        requires
            old(self).wf(),
        ensures
            final(self).wf(),
            r is Ok <==> old(self)@.has_subscription(pool_name@, server_id@),
            r matches Err(e) ==> e == StoreError::NotFound && *final(self) == *old(self),
            r is Ok ==> subscription_removed(old(self)@, final(self)@, pool_name@, server_id@),
            r is Ok ==> !final(self)@.has_subscription(pool_name@, server_id@),
    {
        let pool = pool_name.to_owned();
        let server = server_id.to_owned();
        match self.find_subscription(&pool, &server) {
            None => Err(StoreError::NotFound),
            Some(i) => {
                self.subscriptions.remove(i);
                proof {
                    let pre = old(self)@;
                    pre.subscriptions.remove_ensures(i as int);
                    assert(self@ =~= pre.with_subscriptions(pre.subscriptions.remove(i as int)));
                    assert(subscription_removed(pre, self@, pool_name@, server_id@));
                    assert forall|p: int, q: int| 0 <= p < q < self@.subscriptions.len() implies !((
                    #[trigger] self@.subscriptions[p]).pool_name@ == (
                    #[trigger] self@.subscriptions[q]).pool_name@
                        && self@.subscriptions[p].server_id@
                        == self@.subscriptions[q].server_id@) by {
                        let p0: int = if p < i as int { p } else { p + 1 };
                        let q0: int = if q < i as int { q } else { q + 1 };
                        assert(self@.subscriptions[p] == pre.subscriptions[p0]);
                        assert(self@.subscriptions[q] == pre.subscriptions[q0]);
                    }
                    assert forall|k: int| 0 <= k < self@.subscriptions.len() implies !((
                    #[trigger] self@.subscriptions[k]).pool_name@ == pool_name@
                        && self@.subscriptions[k].server_id@ == server_id@) by {
                        let k0: int = if k < i as int { k } else { k + 1 };
                        assert(self@.subscriptions[k] == pre.subscriptions[k0]);
                    }
                }
                Ok(())
            },
        }
    }

    /// Every subscription this server holds: the pools it follows.
    pub fn list_subscriptions(&self, server_id: &str) -> (r: Vec<Subscription>)
        ensures
            r@ == server_subscriptions(self@.subscriptions, server_id@),
    {
        let server = server_id.to_owned();
        let mut out: Vec<Subscription> = Vec::new();
        let mut i: usize = 0;
        while i < self.subscriptions.len()
            invariant
                i <= self.subscriptions.len(),
                server@ == server_id@,
                out@ =~= server_subscriptions(
                    self@.subscriptions.subrange(0, i as int),
                    server_id@,
                ),
            decreases self.subscriptions.len() - i,
        {
            proof {
                assert(self@.subscriptions.subrange(0, i as int + 1).drop_last()
                    =~= self@.subscriptions.subrange(0, i as int));
                assert(self@.subscriptions.subrange(0, i as int + 1).last()
                    == self@.subscriptions[i as int]);
            }
            if self.subscriptions[i].server_id == server {
                out.push(self.subscriptions[i].clone());
            }
            i += 1;
        }
        proof {
            assert(self@.subscriptions.subrange(0, self.subscriptions.len() as int)
                =~= self@.subscriptions);
        }
        out
    }

    /// Every subscription to this pool: the servers a new ban in the pool
    /// fans out to.
    pub fn list_subscribed_servers(&self, pool_name: &str) -> (r: Vec<Subscription>)
        ensures
            r@ == pool_subscriptions(self@.subscriptions, pool_name@),
    {
        let pool = pool_name.to_owned();
        let mut out: Vec<Subscription> = Vec::new();
        let mut i: usize = 0;
        while i < self.subscriptions.len()
            invariant
                i <= self.subscriptions.len(),
                pool@ == pool_name@,
                out@ =~= pool_subscriptions(self@.subscriptions.subrange(0, i as int), pool_name@),
            decreases self.subscriptions.len() - i,
        {
            proof {
                assert(self@.subscriptions.subrange(0, i as int + 1).drop_last()
                    =~= self@.subscriptions.subrange(0, i as int));
                assert(self@.subscriptions.subrange(0, i as int + 1).last()
                    == self@.subscriptions[i as int]);
            }
            if self.subscriptions[i].pool_name == pool {
                out.push(self.subscriptions[i].clone());
            }
            i += 1;
        }
        proof {
            assert(self@.subscriptions.subrange(0, self.subscriptions.len() as int)
                =~= self@.subscriptions);
        }
        out
    }

    /// The index of the notification setting of this server, if one is
    /// present.
    fn find_notification(&self, server: &String) -> (r: Option<usize>)
        ensures
            r matches Some(i) ==> i < self@.notifications.len()
                && self@.notifications[i as int].server_id@ == server@,
            r is None ==> !self@.has_notification(server@),
    {
        let mut i: usize = 0;
        while i < self.notifications.len()
            invariant
                i <= self.notifications.len(),
                forall|j: int|
                    0 <= j < i ==> (#[trigger] self@.notifications[j]).server_id@ != server@,
            decreases self.notifications.len() - i,
        {
            if self.notifications[i].server_id == *server {
                return Some(i);
            }
            i += 1;
        }
        None
    }

    /// Sets the channel ban notifications go to on this server; rejected
    /// while one is set — the caller must delete before replacing.
    pub fn add_notification_channel(
        &mut self,
        server_id: &str,
        channel_id: &str,
        author_id: &str,
    ) -> (r: Result<(), StoreError>)
        requires
            old(self).wf(),
        ensures
            final(self).wf(),
            r is Ok <==> !old(self)@.has_notification(server_id@),
            r matches Err(e) ==> e == StoreError::AlreadySet && *final(self) == *old(self),
            r is Ok ==> notification_set(old(self)@, final(self)@, server_id@, channel_id@, author_id@),
    {
        let server = server_id.to_owned();
        if self.find_notification(&server).is_some() {
            return Err(StoreError::AlreadySet);
        }
        let rec = NotificationChannel {
            server_id: server,
            channel_id: channel_id.to_owned(),
            author_id: author_id.to_owned(),
            created_at: now_millis(),
        };
        self.notifications.push(rec);
        proof {
            assert(self@ =~= old(self)@.with_notifications(self@.notifications));
            assert(self@.notifications.drop_last() =~= old(self)@.notifications);
            assert forall|i: int, j: int| 0 <= i < j < self@.notifications.len() implies (
            #[trigger] self@.notifications[i]).server_id@ != (
            #[trigger] self@.notifications[j]).server_id@ by {
                if j == self@.notifications.len() - 1 && self@.notifications[i].server_id@
                    == server_id@ {
                    assert(old(self)@.notifications[i].server_id@ == server_id@);
                    assert(old(self)@.has_notification(server_id@));
                }
            }
        }
        Ok(())
    }

    /// Clears this server's notification channel; succeeds exactly when
    /// one is set.
    pub fn delete_notification_channel(&mut self, server_id: &str) -> (r: Result<(), StoreError>)
        requires
            old(self).wf(),
        ensures
            final(self).wf(),
            r is Ok <==> old(self)@.has_notification(server_id@),
            r matches Err(e) ==> e == StoreError::NotSet && *final(self) == *old(self),
            r is Ok ==> notification_removed(old(self)@, final(self)@, server_id@),
            r is Ok ==> !final(self)@.has_notification(server_id@),
    {
        let server = server_id.to_owned();
        match self.find_notification(&server) {
            None => Err(StoreError::NotSet),
            Some(i) => {
                self.notifications.remove(i);
                proof {
                    let pre = old(self)@;
                    pre.notifications.remove_ensures(i as int);
                    assert(self@ =~= pre.with_notifications(pre.notifications.remove(i as int)));
                    assert(notification_removed(pre, self@, server_id@));
                    assert forall|p: int, q: int| 0 <= p < q < self@.notifications.len() implies (
                    #[trigger] self@.notifications[p]).server_id@ != (
                    #[trigger] self@.notifications[q]).server_id@ by {
                        let p0: int = if p < i as int { p } else { p + 1 };
                        let q0: int = if q < i as int { q } else { q + 1 };
                        assert(self@.notifications[p] == pre.notifications[p0]);
                        assert(self@.notifications[q] == pre.notifications[q0]);
                    }
                    assert forall|k: int| 0 <= k < self@.notifications.len() implies (
                    #[trigger] self@.notifications[k]).server_id@ != server_id@ by {
                        let k0: int = if k < i as int { k } else { k + 1 };
                        assert(self@.notifications[k] == pre.notifications[k0]);
                    }
                }
                Ok(())
            },
        }
    }

    /// The notification channel set for this server, or `NotSet`.
    pub fn list_notification_channel(&self, server_id: &str) -> (r: Result<
        NotificationChannel,
        StoreError,
    >)
        ensures
            r is Ok <==> self@.has_notification(server_id@),
            r matches Err(e) ==> e == StoreError::NotSet,
            r matches Ok(c) ==> self@.notifications.contains(c) && c.server_id@ == server_id@,
    {
        let server = server_id.to_owned();
        match self.find_notification(&server) {
            None => Err(StoreError::NotSet),
            Some(i) => {
                let c = self.notifications[i].clone();
                proof {
                    assert(self@.has_notification(server_id@));
                    assert(self@.notifications[i as int] == c);
                    assert(self@.notifications.contains(c));
                }
                Ok(c)
            },
        }
    }

    /// The index of the admin role setting of this server, if one is
    /// present.
    fn find_admin_role(&self, server: &String) -> (r: Option<usize>)
        ensures
            r matches Some(i) ==> i < self@.admin_roles.len()
                && self@.admin_roles[i as int].server_id@ == server@,
            r is None ==> !self@.has_admin_role(server@),
    {
        let mut i: usize = 0;
        while i < self.admin_roles.len()
            invariant
                i <= self.admin_roles.len(),
                forall|j: int|
                    0 <= j < i ==> (#[trigger] self@.admin_roles[j]).server_id@ != server@,
            decreases self.admin_roles.len() - i,
        {
            if self.admin_roles[i].server_id == *server {
                return Some(i);
            }
            i += 1;
        }
        None
    }

    /// Sets the role that may manage pools on this server; rejected while
    /// one is set — the caller must delete before replacing.
    pub fn add_admin_role(
        &mut self,
        server_id: &str,
        role_id: &str,
        author_id: &str,
    ) -> (r: Result<(), StoreError>)
        requires
            old(self).wf(),
        ensures
            final(self).wf(),
            r is Ok <==> !old(self)@.has_admin_role(server_id@),
            r matches Err(e) ==> e == StoreError::AlreadySet && *final(self) == *old(self),
            r is Ok ==> admin_role_set(old(self)@, final(self)@, server_id@, role_id@, author_id@),
    {
        let server = server_id.to_owned();
        if self.find_admin_role(&server).is_some() {
            return Err(StoreError::AlreadySet);
        }
        let rec = AdminRole {
            server_id: server,
            role_id: role_id.to_owned(),
            author_id: author_id.to_owned(),
            created_at: now_millis(),
        };
        self.admin_roles.push(rec);
        proof {
            assert(self@ =~= old(self)@.with_admin_roles(self@.admin_roles));
            assert(self@.admin_roles.drop_last() =~= old(self)@.admin_roles);
            assert forall|i: int, j: int| 0 <= i < j < self@.admin_roles.len() implies (
            #[trigger] self@.admin_roles[i]).server_id@ != (
            #[trigger] self@.admin_roles[j]).server_id@ by {
                if j == self@.admin_roles.len() - 1 && self@.admin_roles[i].server_id@
                    == server_id@ {
                    assert(old(self)@.admin_roles[i].server_id@ == server_id@);
                    assert(old(self)@.has_admin_role(server_id@));
                }
            }
        }
        Ok(())
    }

    /// Clears this server's admin role; succeeds exactly when one is set.
    pub fn delete_admin_role(&mut self, server_id: &str) -> (r: Result<(), StoreError>)
        requires
            old(self).wf(),
        ensures
            final(self).wf(),
            r is Ok <==> old(self)@.has_admin_role(server_id@),
            r matches Err(e) ==> e == StoreError::NotSet && *final(self) == *old(self),
            r is Ok ==> admin_role_removed(old(self)@, final(self)@, server_id@),
            r is Ok ==> !final(self)@.has_admin_role(server_id@),
    {
        let server = server_id.to_owned();
        match self.find_admin_role(&server) {
            None => Err(StoreError::NotSet),
            Some(i) => {
                self.admin_roles.remove(i);
                proof {
                    let pre = old(self)@;
                    pre.admin_roles.remove_ensures(i as int);
                    assert(self@ =~= pre.with_admin_roles(pre.admin_roles.remove(i as int)));
                    assert(admin_role_removed(pre, self@, server_id@));
                    assert forall|p: int, q: int| 0 <= p < q < self@.admin_roles.len() implies (
                    #[trigger] self@.admin_roles[p]).server_id@ != (
                    #[trigger] self@.admin_roles[q]).server_id@ by {
                        let p0: int = if p < i as int { p } else { p + 1 };
                        let q0: int = if q < i as int { q } else { q + 1 };
                        assert(self@.admin_roles[p] == pre.admin_roles[p0]);
                        assert(self@.admin_roles[q] == pre.admin_roles[q0]);
                    }
                    assert forall|k: int| 0 <= k < self@.admin_roles.len() implies (
                    #[trigger] self@.admin_roles[k]).server_id@ != server_id@ by {
                        let k0: int = if k < i as int { k } else { k + 1 };
                        assert(self@.admin_roles[k] == pre.admin_roles[k0]);
                    }
                }
                Ok(())
            },
        }
    }

    /// The admin role set for this server, or `NotSet`.
    pub fn list_admin_role(&self, server_id: &str) -> (r: Result<AdminRole, StoreError>)
        ensures
            r is Ok <==> self@.has_admin_role(server_id@),
            r matches Err(e) ==> e == StoreError::NotSet,
            r matches Ok(c) ==> self@.admin_roles.contains(c) && c.server_id@ == server_id@,
    {
        let server = server_id.to_owned();
        match self.find_admin_role(&server) {
            None => Err(StoreError::NotSet),
            Some(i) => {
                let c = self.admin_roles[i].clone();
                proof {
                    assert(self@.has_admin_role(server_id@));
                    assert(self@.admin_roles[i as int] == c);
                    assert(self@.admin_roles.contains(c));
                }
                Ok(c)
            },
        }
    }

    /// A snapshot of every pool, in insertion order.
    pub fn list_pools(&self) -> (r: Vec<BanPool>)
        ensures
            r@ == self@.pools,
    {
        let mut out: Vec<BanPool> = Vec::new();
        let mut i: usize = 0;
        while i < self.pools.len()
            invariant
                i <= self.pools.len(),
                out@ =~= self@.pools.subrange(0, i as int),
            decreases self.pools.len() - i,
        {
            out.push(self.pools[i].clone());
            proof {
                assert(self@.pools.subrange(0, i as int + 1) =~= self@.pools.subrange(
                    0,
                    i as int,
                ).push(self@.pools[i as int]));
            }
            i += 1;
        }
        proof {
            assert(out@ =~= self@.pools);
        }
        out
    }
}

/// Whether `prefix` begins `s`.
fn str_has_prefix(s: &String, prefix: &str) -> (r: bool)
    ensures
        r == is_prefix_of(prefix@, s@),
{
    let n = prefix.unicode_len();
    if n > s.as_str().unicode_len() {
        return false;
    }
    let mut i: usize = 0;
    while i < n
        invariant
            n == prefix@.len(),
            n <= s@.len(),
            i <= n,
            forall|j: int| 0 <= j < i ==> s@[j] == prefix@[j],
        decreases n - i,
    {
        if s.as_str().get_char(i) != prefix.get_char(i) {
            proof {
                assert(s@.subrange(0, n as int)[i as int] == s@[i as int]);
            }
            return false;
        }
        i += 1;
    }
    proof {
        assert(s@.subrange(0, n as int) =~= prefix@);
    }
    true
}

/// The pool names that begin with `partial`: the completions a command
/// layer offers while a pool name is being typed, over a snapshot as
/// `DB::list_pools` returns it.
pub fn pool_name_completions(pools: &Vec<BanPool>, partial: &str) -> (r: Vec<String>)
    ensures
        name_views(r@) == matching_pool_names(pools@, partial@),
{
    let mut out: Vec<String> = Vec::new();
    let mut i: usize = 0;
    while i < pools.len()
        invariant
            i <= pools.len(),
            name_views(out@) == matching_pool_names(pools@.subrange(0, i as int), partial@),
        decreases pools.len() - i,
    {
        proof {
            assert(pools@.subrange(0, i as int + 1).drop_last() =~= pools@.subrange(0, i as int));
            assert(pools@.subrange(0, i as int + 1).last() == pools@[i as int]);
        }
        if str_has_prefix(&pools[i].pool_name, partial) {
            let ghost pre_out = out@;
            out.push(pools[i].pool_name.clone());
            proof {
                assert(out@.drop_last() =~= pre_out);
            }
        }
        i += 1;
    }
    proof {
        assert(pools@.subrange(0, pools.len() as int) =~= pools@);
    }
    out
}

} // verus!
