use std::collections::BTreeMap;

use typed_store::ops::RawOp;
use typed_store::{open_cf, DBBatch, DBMap, Database, TypedStoreError};

/// An ordered byte store held in memory, which carries out raw operations
/// the way the contracts of the library expect of an engine.
struct Engine {
    data: BTreeMap<(String, Vec<u8>), Vec<u8>>,
}

impl Engine {
    fn new() -> Self {
        Engine { data: BTreeMap::new() }
    }

    fn apply(&mut self, op: RawOp) {
        match op {
            RawOp::Put { cf, key, value } => {
                self.data.insert((cf, key), value);
            }
            RawOp::Delete { cf, key } => {
                self.data.remove(&(cf, key));
            }
            RawOp::DeleteRange { cf, from, to } => {
                self.data.retain(|at, _| !(at.0 == cf && from <= at.1 && at.1 < to));
            }
        }
    }

    fn write(&mut self, ops: Vec<RawOp>) {
        for op in ops {
            self.apply(op);
        }
    }

    fn get(&self, cf: &str, key: &[u8]) -> Option<Vec<u8>> {
        self.data.get(&(cf.to_string(), key.to_vec())).cloned()
    }

    fn entries(&self, cf: &str) -> Vec<(Vec<u8>, Vec<u8>)> {
        self.data.iter().filter(|(at, _)| at.0 == cf).map(|(at, v)| (at.1.clone(), v.clone())).collect()
    }
}

fn two_maps() -> (Database, DBMap<u64, String>, DBMap<u32, u64>) {
    let db = open_cf(1, vec![], &["First_CF", "Second_CF"]);
    let first = DBMap::<u64, String>::reopen(&db, Some("First_CF")).unwrap();
    let second = DBMap::<u32, u64>::reopen(&db, Some("Second_CF")).unwrap();
    (db, first, second)
}

fn get<V: typed_store::value::ValueCodec>(
    engine: &Engine,
    map: &DBMap<u64, V>,
    key: u64,
) -> Result<Option<V>, TypedStoreError> {
    let raw = map.get_request(&key)?;
    let found = engine.get(map.cf(), &raw);
    map.get_reply(found.as_deref())
}

#[test]
fn insert_then_get_then_remove() {
    let (_db, map, _) = two_maps();
    let mut engine = Engine::new();
    assert_eq!(get(&engine, &map, 5), Ok(None));
    engine.apply(map.insert(&5, &"five".to_string()).unwrap());
    assert_eq!(get(&engine, &map, 5), Ok(Some("five".to_string())));
    assert_eq!(get(&engine, &map, 6), Ok(None));
    engine.apply(map.insert(&5, &"cinq".to_string()).unwrap());
    assert_eq!(get(&engine, &map, 5), Ok(Some("cinq".to_string())));
    engine.apply(map.remove(&5).unwrap());
    assert_eq!(get(&engine, &map, 5), Ok(None));
    engine.apply(map.remove(&5).unwrap());
    assert_eq!(get(&engine, &map, 5), Ok(None));
}

#[test]
fn insert_and_remove_are_the_expected_raw_writes() {
    let (_db, map, _) = two_maps();
    assert_eq!(
        map.insert(&258, &"a".to_string()),
        Ok(RawOp::Put {
            cf: "First_CF".to_string(),
            key: vec![0, 0, 0, 0, 0, 0, 1, 2],
            value: vec![1, 0, 0, 0, 0, 0, 0, 0, 97],
        })
    );
    assert_eq!(
        map.remove(&258),
        Ok(RawOp::Delete { cf: "First_CF".to_string(), key: vec![0, 0, 0, 0, 0, 0, 1, 2] })
    );
    assert_eq!(map.get_request(&258), Ok(vec![0, 0, 0, 0, 0, 0, 1, 2]));
}

#[test]
fn contains_key_follows_get() {
    let (_db, map, _) = two_maps();
    let mut engine = Engine::new();
    engine.apply(map.insert(&1, &"one".to_string()).unwrap());
    let present = engine.get(map.cf(), &map.get_request(&1).unwrap());
    let absent = engine.get(map.cf(), &map.get_request(&2).unwrap());
    assert_eq!(map.contains_key_reply(present.as_deref()), Ok(true));
    assert_eq!(map.contains_key_reply(absent.as_deref()), Ok(false));
    assert!(matches!(map.contains_key_reply(Some(&[1, 2])), Err(TypedStoreError::DecodingError(_))));
}

#[test]
fn get_of_corrupt_bytes_is_a_decoding_error() {
    let (_db, map, _) = two_maps();
    assert!(matches!(map.get_reply(Some(&[9, 0, 0, 0, 0, 0, 0, 0, 1])), Err(TypedStoreError::DecodingError(_))));
    assert_eq!(map.get_reply(None), Ok(None));
}

#[test]
fn multi_get_keeps_positions() {
    let (_db, map, _) = two_maps();
    let mut engine = Engine::new();
    engine.apply(map.insert(&2, &"two".to_string()).unwrap());
    let raw = map.multi_get_request(&[1, 2, 3]).unwrap();
    assert_eq!(raw, vec![vec![0, 0, 0, 0, 0, 0, 0, 1], vec![0, 0, 0, 0, 0, 0, 0, 2], vec![0, 0, 0, 0, 0, 0, 0, 3]]);
    let replies: Vec<Result<Option<Vec<u8>>, String>> =
        raw.iter().map(|key| Ok(engine.get(map.cf(), key))).collect();
    assert_eq!(map.multi_get_reply(&replies), Ok(vec![None, Some("two".to_string()), None]));
}

#[test]
fn multi_get_fails_as_a_whole() {
    let (_db, map, _) = two_maps();
    let good = "ok".to_string();
    let stored = map.insert(&1, &good).unwrap();
    let bytes = match stored {
        RawOp::Put { value, .. } => value,
        _ => panic!("an insert is a put"),
    };
    let corrupt: Vec<Result<Option<Vec<u8>>, String>> =
        vec![Ok(Some(bytes.clone())), Ok(Some(vec![1, 2, 3])), Ok(None)];
    assert!(matches!(map.multi_get_reply(&corrupt), Err(TypedStoreError::DecodingError(_))));
    let failed: Vec<Result<Option<Vec<u8>>, String>> =
        vec![Ok(Some(bytes)), Err("IO error: disk".to_string()), Ok(Some(vec![1, 2, 3]))];
    assert_eq!(
        map.multi_get_reply(&failed),
        Err(TypedStoreError::RocksDBError("IO error: disk".to_string()))
    );
    let none: Vec<Result<Option<Vec<u8>>, String>> = vec![];
    assert_eq!(map.multi_get_reply(&none), Ok(vec![]));
}

#[test]
fn batch_across_two_maps_is_one_write() {
    let (_db, first, second) = two_maps();
    let mut engine = Engine::new();
    let keys_vals_1: Vec<(u64, String)> = (1..100).map(|i| (i, i.to_string())).collect();
    let keys_vals_2: Vec<(u32, u64)> = (1000..1100).map(|i| (i, u64::from(i) * 2)).collect();
    let batch = first
        .batch()
        .insert_batch(&first, &keys_vals_1)
        .expect("Failed to batch insert")
        .insert_batch(&second, &keys_vals_2)
        .expect("Failed to batch insert");
    // Nothing is visible before the batch is written.
    assert!(engine.entries("First_CF").is_empty());
    assert!(engine.entries("Second_CF").is_empty());
    let ops = batch.write();
    assert_eq!(ops.len(), 199);
    engine.write(ops);
    for (k, v) in keys_vals_1 {
        assert_eq!(get(&engine, &first, k), Ok(Some(v)));
    }
    for (k, v) in keys_vals_2 {
        let raw = second.get_request(&k).unwrap();
        assert_eq!(second.get_reply(engine.get(second.cf(), &raw).as_deref()), Ok(Some(v)));
    }
}

#[test]
fn batch_stages_operations_in_order() {
    let (db, first, second) = two_maps();
    let ops = DBBatch::new(&db)
        .insert_batch(&first, &[(1, "a".to_string())])
        .unwrap()
        .delete_batch(&second, &[7, 8])
        .unwrap()
        .delete_range(&first, &2, &4)
        .unwrap()
        .write();
    assert_eq!(
        ops,
        vec![
            RawOp::Put {
                cf: "First_CF".to_string(),
                key: vec![0, 0, 0, 0, 0, 0, 0, 1],
                value: vec![1, 0, 0, 0, 0, 0, 0, 0, 97],
            },
            RawOp::Delete { cf: "Second_CF".to_string(), key: vec![0, 0, 0, 7] },
            RawOp::Delete { cf: "Second_CF".to_string(), key: vec![0, 0, 0, 8] },
            RawOp::DeleteRange {
                cf: "First_CF".to_string(),
                from: vec![0, 0, 0, 0, 0, 0, 0, 2],
                to: vec![0, 0, 0, 0, 0, 0, 0, 4],
            },
        ]
    );
    assert!(DBBatch::new(&db).write().is_empty());
}

#[test]
fn batch_refuses_a_map_of_another_database() {
    let (db, first, _) = two_maps();
    let other = open_cf(2, vec![], &["First_CF", "Second_CF"]);
    let foreign = DBMap::<u64, String>::reopen(&other, Some("First_CF")).unwrap();
    let staged = DBBatch::new(&db).insert_batch(&first, &[(1, "a".to_string())]).unwrap();
    assert!(matches!(
        staged.insert_batch(&foreign, &[(2, "b".to_string())]),
        Err(TypedStoreError::CrossDBBatch)
    ));
    assert!(matches!(DBBatch::new(&db).delete_batch(&foreign, &[1]), Err(TypedStoreError::CrossDBBatch)));
    assert!(matches!(DBBatch::new(&db).delete_range(&foreign, &1, &2), Err(TypedStoreError::CrossDBBatch)));
    assert!(matches!(foreign.batch().insert_batch(&first, &[]), Err(TypedStoreError::CrossDBBatch)));
    // A second map of the same database is accepted.
    let again = DBMap::<u64, String>::reopen(&db, Some("First_CF")).unwrap();
    assert!(first.batch().insert_batch(&again, &[(3, "c".to_string())]).is_ok());
}

#[test]
fn delete_range_removes_from_inclusive_to_exclusive() {
    let (_db, map, _) = two_maps();
    let mut engine = Engine::new();
    let pairs: Vec<(u64, String)> = (0..600).map(|i| (i, i.to_string())).collect();
    engine.write(map.batch().insert_batch(&map, &pairs).unwrap().write());
    engine.write(map.batch().delete_range(&map, &100, &300).unwrap().write());
    for k in 0..600u64 {
        let expected = if (100..300).contains(&k) { None } else { Some(k.to_string()) };
        assert_eq!(get(&engine, &map, k), Ok(expected));
    }
    assert_eq!(get(&engine, &map, 300), Ok(Some("300".to_string())));
    assert_eq!(get(&engine, &map, 99), Ok(Some("99".to_string())));
    assert_eq!(get(&engine, &map, 100), Ok(None));
    assert_eq!(get(&engine, &map, 299), Ok(None));
}

#[test]
fn delete_batch_removes_each_key() {
    let (_db, map, _) = two_maps();
    let mut engine = Engine::new();
    let pairs: Vec<(u64, String)> = (0..10).map(|i| (i, i.to_string())).collect();
    engine.write(map.batch().insert_batch(&map, &pairs).unwrap().write());
    engine.write(map.batch().delete_batch(&map, &[1, 3, 5, 42]).unwrap().write());
    for k in 0..10u64 {
        let expected = if k == 1 || k == 3 || k == 5 { None } else { Some(k.to_string()) };
        assert_eq!(get(&engine, &map, k), Ok(expected));
    }
}

#[test]
fn cursor_over_empty_column_family_ends_at_once() {
    let (_db, map, _) = two_maps();
    let mut iter = map.iter();
    assert!(!iter.exhausted());
    assert_eq!(iter.next(None), None);
    assert!(iter.exhausted());
    let mut keys = map.keys();
    assert_eq!(keys.next(None), None);
    assert!(keys.exhausted());
    let mut values = map.values();
    assert_eq!(values.next(None), None);
    assert!(values.exhausted());
}

#[test]
fn cursor_yields_each_entry_in_key_order_then_ends() {
    let (_db, map, _) = two_maps();
    let mut engine = Engine::new();
    let pairs: Vec<(u64, String)> = vec![300, 2, 256, 1, 255, 70_000].into_iter().map(|i| (i, i.to_string())).collect();
    engine.write(map.batch().insert_batch(&map, &pairs).unwrap().write());
    let entries = engine.entries(map.cf());

    let mut iter = map.iter();
    let mut seen = Vec::new();
    let mut position = 0;
    loop {
        let current = entries.get(position).map(|(k, v)| (k.as_slice(), v.as_slice()));
        match iter.next(current) {
            Some(item) => {
                seen.push(item.unwrap());
                position += 1;
            }
            None => break,
        }
    }
    let expected: Vec<(u64, String)> =
        vec![1, 2, 255, 256, 300, 70_000].into_iter().map(|i| (i, i.to_string())).collect();
    assert_eq!(seen, expected);
    // The pass is over for good, whatever the cursor is shown.
    assert!(iter.exhausted());
    assert_eq!(iter.next(Some((entries[0].0.as_slice(), entries[0].1.as_slice()))), None);

    let mut keys = map.keys();
    let mut seen_keys = Vec::new();
    for (k, _) in entries.iter() {
        seen_keys.push(keys.next(Some(k.as_slice())).unwrap().unwrap());
    }
    assert_eq!(keys.next(None), None);
    assert_eq!(seen_keys, vec![1, 2, 255, 256, 300, 70_000]);
    assert_eq!(keys.next(Some(entries[0].0.as_slice())), None);

    let mut values = map.values();
    let mut seen_values = Vec::new();
    for (_, v) in entries.iter() {
        seen_values.push(values.next(Some(v.as_slice())).unwrap().unwrap());
    }
    assert_eq!(values.next(None), None);
    assert_eq!(seen_values, vec!["1", "2", "255", "256", "300", "70000"]);
    assert_eq!(values.next(Some(entries[0].1.as_slice())), None);
}

#[test]
fn cursor_hands_out_corrupt_entries_as_errors() {
    let (_db, map, _) = two_maps();
    let good_key = [0u8, 0, 0, 0, 0, 0, 0, 9];
    let good_value = [1u8, 0, 0, 0, 0, 0, 0, 0, 97];
    let mut iter = map.iter();
    assert!(matches!(iter.next(Some((&[1, 2, 3], &good_value))), Some(Err(TypedStoreError::DecodingError(_)))));
    assert!(matches!(iter.next(Some((&good_key, &[1, 2]))), Some(Err(TypedStoreError::DecodingError(_)))));
    assert_eq!(iter.next(Some((&good_key, &good_value))), Some(Ok((9, "a".to_string()))));
    assert!(!iter.exhausted());
    let mut keys = map.keys();
    assert!(matches!(keys.next(Some(&[1, 2, 3])), Some(Err(TypedStoreError::DecodingError(_)))));
    assert_eq!(keys.next(Some(&good_key)), Some(Ok(9)));
    let mut values = map.values();
    assert!(matches!(values.next(Some(&[1, 2, 3])), Some(Err(TypedStoreError::DecodingError(_)))));
    assert_eq!(values.next(Some(&good_value)), Some(Ok("a".to_string())));
}
