use banpool::errors::StoreError;
use banpool::protocol;
use banpool::store::{pool_name_completions, DB};
use banpool::Data;

#[test]
fn completions_keep_exactly_the_prefixed_names() {
    let mut db = DB::new();
    assert_eq!(db.add_pool("spam", "d1"), Ok(()));
    assert_eq!(db.add_pool("spear", "d2"), Ok(()));
    assert_eq!(db.add_pool("ham", "d3"), Ok(()));
    let pools = db.list_pools();

    let sp = pool_name_completions(&pools, "sp");
    assert_eq!(sp, vec!["spam".to_string(), "spear".to_string()]);

    let all = pool_name_completions(&pools, "");
    assert_eq!(all.len(), 3);

    let none = pool_name_completions(&pools, "zz");
    assert_eq!(none.len(), 0);

    // a prefix longer than a name never matches it
    let long = pool_name_completions(&pools, "spamming");
    assert_eq!(long.len(), 0);
}

#[test]
fn error_messages_name_each_failure() {
    assert_eq!(StoreError::AlreadyExists.message(), "record already exists");
    assert_eq!(StoreError::NotFound.message(), "record does not exist");
    assert_eq!(
        StoreError::ReferenceNotFound.message(),
        "the referenced pool does not exist"
    );
    assert_eq!(
        StoreError::AlreadySet.message(),
        "a value is already set for this server"
    );
    assert_eq!(StoreError::NotSet.message(), "no value is set for this server");
    assert_eq!(
        StoreError::BackendUnavailable.message(),
        "the backend could not be reached"
    );
}

#[test]
fn protocol_outcomes_match_the_store_rules() {
    assert_eq!(protocol::unique_add_outcome(false), Ok(()));
    assert_eq!(
        protocol::unique_add_outcome(true),
        Err(StoreError::AlreadyExists)
    );

    assert_eq!(protocol::referencing_add_outcome(false, true), Ok(()));
    assert_eq!(
        protocol::referencing_add_outcome(true, true),
        Err(StoreError::AlreadyExists)
    );
    // the duplicate check comes first, as in the store's add operations
    assert_eq!(
        protocol::referencing_add_outcome(true, false),
        Err(StoreError::AlreadyExists)
    );
    assert_eq!(
        protocol::referencing_add_outcome(false, false),
        Err(StoreError::ReferenceNotFound)
    );

    assert_eq!(protocol::singleton_set_outcome(false), Ok(()));
    assert_eq!(
        protocol::singleton_set_outcome(true),
        Err(StoreError::AlreadySet)
    );

    assert_eq!(protocol::deletion_outcome(1), Ok(()));
    assert_eq!(protocol::deletion_outcome(0), Err(StoreError::NotFound));
    assert_eq!(protocol::singleton_delete_outcome(2), Ok(()));
    assert_eq!(
        protocol::singleton_delete_outcome(0),
        Err(StoreError::NotSet)
    );

    assert_eq!(protocol::singleton_get_outcome(Some(7u64)), Ok(7u64));
    assert_eq!(
        protocol::singleton_get_outcome::<u64>(None),
        Err(StoreError::NotSet)
    );
}

#[test]
fn data_context_starts_around_an_empty_store() {
    let mut data = Data::new();
    assert_eq!(data.db.list_pools().len(), 0);
    assert_eq!(data.db.add_pool("p", "d"), Ok(()));
    assert_eq!(data.db.list_pools().len(), 1);
}
