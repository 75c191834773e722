use banpool::errors::StoreError;
use banpool::store::DB;

#[test]
fn add_pool_twice_reports_already_exists() {
    let mut db = DB::new();
    assert_eq!(db.add_pool("p", "d"), Ok(()));
    assert_eq!(db.add_pool("p", "d"), Err(StoreError::AlreadyExists));
    assert_eq!(db.list_pools().len(), 1);
}

#[test]
fn add_ban_to_missing_pool_writes_nothing() {
    let mut db = DB::new();
    assert_eq!(
        db.add_ban("u1", "nonexistent-pool", "r", "c"),
        Err(StoreError::ReferenceNotFound)
    );
    assert_eq!(db.list_bans().len(), 0);
}

#[test]
fn duplicate_ban_rejected_whatever_its_reason() {
    let mut db = DB::new();
    assert_eq!(db.add_pool("p1", "d"), Ok(()));
    assert_eq!(db.add_ban("u1", "p1", "spamming", "mod-a"), Ok(()));
    assert_eq!(
        db.add_ban("u1", "p1", "a different reason", "mod-b"),
        Err(StoreError::AlreadyExists)
    );
    assert_eq!(db.list_bans().len(), 1);
    let bans = db.list_bans();
    assert_eq!(bans[0].reason, "spamming");
    assert_eq!(bans[0].creator_id, "mod-a");
}

#[test]
fn delete_ban_on_missing_pair_leaves_ledger() {
    let mut db = DB::new();
    assert_eq!(db.add_pool("p1", "d"), Ok(()));
    assert_eq!(db.add_ban("u2", "p1", "r", "c"), Ok(()));
    assert_eq!(db.delete_ban("u1", "p1"), Err(StoreError::NotFound));
    let bans = db.list_bans();
    assert_eq!(bans.len(), 1);
    assert_eq!(bans[0].user_id, "u2");
    assert_eq!(bans[0].pool_name, "p1");
}

#[test]
fn admin_role_is_a_singleton_per_server() {
    let mut db = DB::new();
    assert_eq!(db.add_admin_role("s", "r1", "a1"), Ok(()));
    assert_eq!(db.add_admin_role("s", "r2", "a2"), Err(StoreError::AlreadySet));
    let role = db.list_admin_role("s").unwrap();
    assert_eq!(role.role_id, "r1");
    assert_eq!(role.author_id, "a1");
    // another server is unaffected
    assert_eq!(db.add_admin_role("t", "r2", "a2"), Ok(()));
    assert_eq!(db.list_admin_role("t").unwrap().role_id, "r2");
}

#[test]
fn deleting_a_pool_orphans_its_bans() {
    let mut db = DB::new();
    assert_eq!(db.add_pool("spam", "spam accounts"), Ok(()));
    assert_eq!(db.add_ban("42", "spam", "phishing", "7"), Ok(()));
    let bans = db.get_user_bans("42");
    assert_eq!(bans.len(), 1);
    assert_eq!(bans[0].pool_name, "spam");
    assert_eq!(bans[0].reason, "phishing");
    assert_eq!(bans[0].creator_id, "7");
    assert_eq!(db.delete_pool("spam"), Ok(()));
    // no cascading delete: the ban record remains, orphaned
    let orphaned = db.get_user_bans("42");
    assert_eq!(orphaned.len(), 1);
    assert_eq!(orphaned[0].pool_name, "spam");
    assert_eq!(db.list_pools().len(), 0);
}

#[test]
fn subscription_fans_out_both_ways() {
    let mut db = DB::new();
    assert_eq!(db.add_pool("spam", "spam accounts"), Ok(()));
    assert_eq!(
        db.add_subscription("spam", "serverA", "creator1", "full"),
        Ok(())
    );
    let followers = db.list_subscribed_servers("spam");
    assert!(followers.iter().any(|s| s.server_id == "serverA"));
    let followed = db.list_subscriptions("serverA");
    assert!(followed.iter().any(|s| s.pool_name == "spam"));
    assert_eq!(followed[0].subscription_level, "full");
    assert_eq!(followed[0].creator_id, "creator1");
}

#[test]
fn empty_store_lists_nothing() {
    let mut db = DB::new();
    assert_eq!(db.list_pools().len(), 0);
    assert_eq!(db.list_bans().len(), 0);
    assert_eq!(db.list_exceptions("s").len(), 0);
    assert_eq!(db.list_subscriptions("s").len(), 0);
    assert!(!db.is_user_exception("s", "u"));
    assert!(matches!(db.list_admin_role("s"), Err(StoreError::NotSet)));
    assert!(matches!(db.list_notification_channel("s"), Err(StoreError::NotSet)));
    assert_eq!(db.delete_pool("p"), Err(StoreError::NotFound));
}

#[test]
fn exception_lifecycle() {
    let mut db = DB::new();
    assert_eq!(db.add_exception("u", "s", "c"), Ok(()));
    assert_eq!(db.add_exception("u", "s", "c2"), Err(StoreError::AlreadyExists));
    assert!(db.is_user_exception("s", "u"));
    assert!(!db.is_user_exception("other", "u"));
    let exceptions = db.list_exceptions("s");
    assert_eq!(exceptions.len(), 1);
    assert_eq!(exceptions[0].user_id, "u");
    assert_eq!(exceptions[0].creator_id, "c");
    assert_eq!(db.delete_exception("u", "s"), Ok(()));
    assert_eq!(db.delete_exception("u", "s"), Err(StoreError::NotFound));
    assert!(!db.is_user_exception("s", "u"));
}

#[test]
fn subscription_errors_mirror_ban_errors() {
    let mut db = DB::new();
    assert_eq!(
        db.add_subscription("missing", "s", "c", "full"),
        Err(StoreError::ReferenceNotFound)
    );
    assert_eq!(db.add_pool("p", "d"), Ok(()));
    assert_eq!(db.add_subscription("p", "s", "c", "full"), Ok(()));
    assert_eq!(
        db.add_subscription("p", "s", "c", "partial"),
        Err(StoreError::AlreadyExists)
    );
    assert_eq!(db.delete_subscription("p", "other"), Err(StoreError::NotFound));
    assert_eq!(db.delete_subscription("p", "s"), Ok(()));
    assert_eq!(db.list_subscriptions("s").len(), 0);
}

#[test]
fn notification_channel_lifecycle() {
    let mut db = DB::new();
    assert_eq!(db.add_notification_channel("s", "chan-9", "a"), Ok(()));
    assert_eq!(
        db.add_notification_channel("s", "chan-10", "b"),
        Err(StoreError::AlreadySet)
    );
    let channel = db.list_notification_channel("s").unwrap();
    assert_eq!(channel.channel_id, "chan-9");
    assert_eq!(channel.author_id, "a");
    assert_eq!(db.delete_notification_channel("s"), Ok(()));
    assert!(matches!(db.list_notification_channel("s"), Err(StoreError::NotSet)));
    assert_eq!(db.delete_notification_channel("s"), Err(StoreError::NotSet));
}

#[test]
fn ban_queries_filter_exactly() {
    let mut db = DB::new();
    assert_eq!(db.add_pool("p1", "d1"), Ok(()));
    assert_eq!(db.add_pool("p2", "d2"), Ok(()));
    assert_eq!(db.add_ban("u1", "p1", "r1", "c"), Ok(()));
    assert_eq!(db.add_ban("u1", "p2", "r2", "c"), Ok(()));
    assert_eq!(db.add_ban("u2", "p1", "r3", "c"), Ok(()));

    let u1 = db.get_user_bans("u1");
    assert_eq!(u1.len(), 2);
    assert!(u1.iter().all(|b| b.user_id == "u1"));

    let p1 = db.get_pool_bans("p1");
    assert_eq!(p1.len(), 2);
    assert!(p1.iter().all(|b| b.pool_name == "p1"));

    let one = db.get_ban_from_pool("u1", "p2");
    assert_eq!(one.len(), 1);
    assert_eq!(one[0].reason, "r2");

    assert_eq!(db.get_ban_from_pool("u2", "p2").len(), 0);
    assert_eq!(db.list_bans().len(), 3);
}

#[test]
fn delete_pool_removes_only_its_target() {
    let mut db = DB::new();
    assert_eq!(db.add_pool("a", "da"), Ok(()));
    assert_eq!(db.add_pool("b", "db"), Ok(()));
    assert_eq!(db.delete_pool("a"), Ok(()));
    let pools = db.list_pools();
    assert_eq!(pools.len(), 1);
    assert_eq!(pools[0].pool_name, "b");
    assert_eq!(pools[0].pool_desc, "db");
    assert_eq!(db.delete_pool("a"), Err(StoreError::NotFound));
}
