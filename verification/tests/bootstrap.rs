use typed_store::{open_cf, DBMap, TypedStoreError};

#[test]
fn open_cf_unions_requested_with_on_disk() {
    let db = open_cf(1, vec!["default".to_string(), "a".to_string()], &["b", "a", "b", "c"]);
    let expected: Vec<String> = vec!["default", "a", "b", "c"].into_iter().map(String::from).collect();
    assert_eq!(db.column_families(), &expected);
    assert_eq!(db.id(), 1);
}

#[test]
fn reopen_unregistered_column_family_fails() {
    let db = open_cf(7, vec![], &["First_CF", "Second_CF"]);
    assert!(DBMap::<u64, u64>::reopen(&db, Some("First_CF")).is_ok());
    match DBMap::<u64, u64>::reopen(&db, Some("Third_CF")) {
        Err(e) => assert_eq!(e, TypedStoreError::UnregisteredColumn("Third_CF".to_string())),
        Ok(_) => panic!("a column family that was never registered was accepted"),
    }
    match DBMap::<u64, u64>::reopen(&db, None) {
        Err(e) => assert_eq!(e, TypedStoreError::UnregisteredColumn("default".to_string())),
        Ok(_) => panic!("the default column family was never registered"),
    }
}

#[test]
fn open_selects_the_default_column_family() {
    let map = DBMap::<u64, u64>::open(3, vec![], None);
    assert_eq!(map.cf(), "default");
    assert_eq!(map.db().id(), 3);
    assert_eq!(map.db().column_families(), &vec!["default".to_string()]);
    let named = DBMap::<u64, u64>::open(4, vec!["default".to_string(), "x".to_string()], Some("y"));
    assert_eq!(named.cf(), "y");
    let expected: Vec<String> = vec!["default", "x", "y"].into_iter().map(String::from).collect();
    assert_eq!(named.db().column_families(), &expected);
    let existing = DBMap::<u64, u64>::open(5, vec!["default".to_string(), "x".to_string()], Some("x"));
    assert_eq!(existing.db().column_families(), &vec!["default".to_string(), "x".to_string()]);
}

#[test]
fn reopen_shares_the_database() {
    let db = open_cf(9, vec!["default".to_string()], &["a"]);
    let default = DBMap::<u32, String>::reopen(&db, None).unwrap();
    let a = DBMap::<u64, Vec<u8>>::reopen(&db, Some("a")).unwrap();
    assert_eq!(default.cf(), "default");
    assert_eq!(a.cf(), "a");
    assert_eq!(default.db().id(), 9);
    assert_eq!(a.db().id(), 9);
    assert!(db.has_column_family(&"a".to_string()));
    assert!(!db.has_column_family(&"b".to_string()));
}

#[test]
fn errors_describe_themselves() {
    assert_eq!(TypedStoreError::CrossDBBatch.message(), "a batch operation can't operate across databases");
    assert_eq!(
        TypedStoreError::UnregisteredColumn("Third_CF".to_string()).message(),
        "the column family Third_CF was not registered with the database"
    );
    assert_eq!(TypedStoreError::RocksDBError("IO error".to_string()).message(), "rocksdb error: IO error");
    assert_eq!(TypedStoreError::EncodingError("x".to_string()).message(), "encoding error: x");
    assert_eq!(TypedStoreError::DecodingError("y".to_string()).message(), "decoding error: y");
}
