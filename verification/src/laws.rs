use vstd::prelude::*;

use crate::records::AdminRole;
use crate::store::{admin_role_set, ban_added, pool_added, StoreView};

verus! {

/// Failure of a duplicate pool add is owed. Once an add of this name has
/// succeeded, the view satisfies `has_pool`, so by `DB::add_pool`'s
/// contract a second add of the same name must return `AlreadyExists` and
/// leave the store unchanged; and the first add grew the pool count by
/// exactly one.
pub proof fn duplicate_pool_add_fails(
    pre: StoreView,
    post: StoreView,
    name: Seq<char>,
    desc: Seq<char>,
)
    requires
        pool_added(pre, post, name, desc),
    ensures
        post.has_pool(name),
        post.pools.len() == pre.pools.len() + 1,
{
    assert(post.pools[post.pools.len() - 1].pool_name@ == name);
}

/// Failure of a duplicate ban add is owed. Once an add of this
/// `(user, pool)` pair has succeeded, the view satisfies `has_ban`, so by
/// `DB::add_ban`'s contract a second add of the same pair must return
/// `AlreadyExists` whatever its reason and creator: the duplicate test in
/// that contract reads only the key pair.
pub proof fn duplicate_ban_add_fails(
    pre: StoreView,
    post: StoreView,
    user: Seq<char>,
    pool: Seq<char>,
    reason: Seq<char>,
    creator: Seq<char>,
)
    requires
        ban_added(pre, post, user, pool, reason, creator),
    ensures
        post.has_ban(user, pool),
        post.bans.len() == pre.bans.len() + 1,
{
    assert(post.bans[post.bans.len() - 1].user_id@ == user);
}

/// An admin role is a singleton. After a set of `role` for `server`
/// succeeds on a well-formed store, the view satisfies `has_admin_role`,
/// so by `DB::add_admin_role`'s contract a second set must return
/// `AlreadySet` and change nothing; and every admin role record the store
/// then holds for `server` — in particular the one `DB::list_admin_role`
/// returns — carries `role`.
pub proof fn admin_role_is_singleton(
    pre: StoreView,
    post: StoreView,
    server: Seq<char>,
    role: Seq<char>,
    author: Seq<char>,
    c: AdminRole,
)
    requires
        pre.wf(),
        !pre.has_admin_role(server),
        admin_role_set(pre, post, server, role, author),
        post.admin_roles.contains(c),
        c.server_id@ == server,
    ensures
        post.has_admin_role(server),
        c.role_id@ == role,
{
    let last: int = post.admin_roles.len() - 1;
    assert(post.admin_roles[last].server_id@ == server);
    let k: int = choose|k: int|
        0 <= k < post.admin_roles.len() && post.admin_roles[k] == c;
    if k < last {
        assert(pre.admin_roles[k] == post.admin_roles.drop_last()[k]);
        assert(pre.admin_roles[k].server_id@ == server);
        assert(pre.has_admin_role(server));
    }
}

} // verus!
