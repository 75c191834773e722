use vstd::prelude::*;

verus! {

/// A named pool of shared ban records that servers can subscribe to.
///
/// `pool_name` is globally unique among live pools.
#[derive(Debug)]
pub struct BanPool {
    pub pool_name: String,
    pub pool_desc: String,
    /// Creation time in milliseconds since the Unix epoch, set at write.
    pub created_at: i64,
}

impl Clone for BanPool {
    fn clone(&self) -> (r: Self)
        ensures
            r == *self,
    {
        BanPool {
            pool_name: self.pool_name.clone(),
            pool_desc: self.pool_desc.clone(),
            created_at: self.created_at,
        }
    }
}

/// A record that a user is banned within a pool.
///
/// The pair `(user_id, pool_name)` is unique among live bans. A ban may
/// only be created while its pool exists; deleting the pool afterwards
/// leaves the ban orphaned rather than cascading.
#[derive(Debug)]
pub struct Ban {
    pub user_id: String,
    pub pool_name: String,
    pub reason: String,
    pub creator_id: String,
    /// Creation time in milliseconds since the Unix epoch, set at write.
    pub created_at: i64,
}

impl Clone for Ban {
    fn clone(&self) -> (r: Self)
        ensures
            r == *self,
    {
        Ban {
            user_id: self.user_id.clone(),
            pool_name: self.pool_name.clone(),
            reason: self.reason.clone(),
            creator_id: self.creator_id.clone(),
            created_at: self.created_at,
        }
    }
}

/// A per-server override that exempts a user from enforcement regardless
/// of ban records. The pair `(user_id, server_id)` is unique.
#[derive(Debug)]
pub struct BanException {
    pub user_id: String,
    pub server_id: String,
    pub creator_id: String,
    /// Creation time in milliseconds since the Unix epoch, set at write.
    pub created_at: i64,
}

impl Clone for BanException {
    fn clone(&self) -> (r: Self)
        ensures
            r == *self,
    {
        BanException {
            user_id: self.user_id.clone(),
            server_id: self.server_id.clone(),
            creator_id: self.creator_id.clone(),
            created_at: self.created_at,
        }
    }
}

/// A server's opt-in to receive a pool's bans. The pair
/// `(pool_name, server_id)` is unique, and the pool must exist at the
/// time the subscription is created.
#[derive(Debug)]
pub struct Subscription {
    pub pool_name: String,
    pub subscription_level: String,
    pub server_id: String,
    pub creator_id: String,
    /// Creation time in milliseconds since the Unix epoch, set at write.
    pub created_at: i64,
}

impl Clone for Subscription {
    fn clone(&self) -> (r: Self)
        ensures
            r == *self,
    {
        Subscription {
            pool_name: self.pool_name.clone(),
            subscription_level: self.subscription_level.clone(),
            server_id: self.server_id.clone(),
            creator_id: self.creator_id.clone(),
            created_at: self.created_at,
        }
    }
}

/// A combined per-server configuration record: the announcement channel
/// and the admin role a server uses, in one document.
#[derive(Debug)]
pub struct ServerConfig {
    pub server_id: String,
    pub announce_channel_id: String,
    pub admin_role_id: String,
    pub author_id: String,
    /// Creation time in milliseconds since the Unix epoch, set at write.
    pub created_at: i64,
}

impl Clone for ServerConfig {
    fn clone(&self) -> (r: Self)
        ensures
            r == *self,
    {
        ServerConfig {
            server_id: self.server_id.clone(),
            announce_channel_id: self.announce_channel_id.clone(),
            admin_role_id: self.admin_role_id.clone(),
            author_id: self.author_id.clone(),
            created_at: self.created_at,
        }
    }
}

/// The role that may manage pools on a server: a singleton setting,
/// at most one live record per `server_id`.
#[derive(Debug)]
pub struct AdminRole {
    pub server_id: String,
    pub role_id: String,
    pub author_id: String,
    /// Creation time in milliseconds since the Unix epoch, set at write.
    pub created_at: i64,
}

impl Clone for AdminRole {
    fn clone(&self) -> (r: Self)
        ensures
            r == *self,
    {
        AdminRole {
            server_id: self.server_id.clone(),
            role_id: self.role_id.clone(),
            author_id: self.author_id.clone(),
            created_at: self.created_at,
        }
    }
}

/// The channel a server wants ban notifications sent to: a singleton
/// setting, at most one live record per `server_id`.
#[derive(Debug)]
pub struct NotificationChannel {
    pub server_id: String,
    pub channel_id: String,
    pub author_id: String,
    /// Creation time in milliseconds since the Unix epoch, set at write.
    pub created_at: i64,
}

impl Clone for NotificationChannel {
    fn clone(&self) -> (r: Self)
        ensures
            r == *self,
    {
        NotificationChannel {
            server_id: self.server_id.clone(),
            channel_id: self.channel_id.clone(),
            author_id: self.author_id.clone(),
            created_at: self.created_at,
        }
    }
}

} // verus!
