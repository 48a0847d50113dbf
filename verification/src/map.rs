//! A typed map over one column family of a database.
use core::marker::PhantomData;
use vstd::prelude::*;

use crate::batch::{keys_encodable, DBBatch};
use crate::database::{
    default_column_family, default_column_family_name, lemma_with_requested, names_of, open_cf,
    strs_of, with_requested, Database,
};
use crate::cursor::{Iter, Keys, Values};
use crate::errors::TypedStoreError;
use crate::key::KeyCodec;
use crate::ops::{Op, RawOp};
use crate::value::ValueCodec;

verus! {

/// The column family that `opt_cf` selects: the one named, or the default.
pub open spec fn selected_column_family(opt_cf: Option<&str>) -> Seq<char> {
    match opt_cf {
        Some(name) => name@,
        None => default_column_family_name(),
    }
}

/// A map from `K` to `V`, stored in one column family of a database.
///
/// The map owns no data. Several maps, also of different types, may name the
/// same column family; nothing checks that they agree on what is stored there.
#[derive(Debug)]
pub struct DBMap<K, V> {
    rocksdb: Database,
    cf: String,
    _phantom: PhantomData<(K, V)>,
}

impl<K, V> DBMap<K, V> {
    /// The database in which the map lives.
    pub closed spec fn database(&self) -> Database {
        self.rocksdb
    }

    /// The name of the column family under which the map is stored.
    pub closed spec fn column_family(&self) -> Seq<char> {
        self.cf@
    }

    /// The column family of a map is registered with its database.
    pub open spec fn wf(&self) -> bool {
        self.database().registered().contains(self.column_family())
    }

    /// Describes a database at a place where `on_disk` lists the column
    /// families that exist already, with the selected column family created if
    /// it is missing, and returns the map stored under that column family.
    ///
    /// `id` must differ from that of every other database that is open.
    pub fn open(id: u64, on_disk: Vec<String>, opt_cf: Option<&str>) -> (map: Self)
        ensures
            map.wf(),
            map.column_family() == selected_column_family(opt_cf),
            map.database().identity() == id,
            map.database().registered() == with_requested(
                names_of(on_disk@),
                seq![selected_column_family(opt_cf)],
            ),
    {
        let cf_key: String = match opt_cf {
            Some(name) => name.to_string(),
            None => default_column_family(),
        };
        let cfs: [&str; 1] = [cf_key.as_str()];
        let rocksdb = open_cf(id, on_disk, cfs.as_slice());
        proof {
            let requested = seq![selected_column_family(opt_cf)];
            assert(strs_of(cfs@) =~= requested);
            lemma_with_requested(names_of(on_disk@), requested);
            assert(requested[0] == cf_key@);
        }
        DBMap { rocksdb, cf: cf_key, _phantom: PhantomData }
    }

    /// Attaches a map to the selected column family of an open database.
    ///
    /// Fails with `UnregisteredColumn` if that column family was not
    /// registered when the database was opened.
    pub fn reopen(db: &Database, opt_cf: Option<&str>) -> (r: Result<Self, TypedStoreError>)
        ensures
            match r {
                Ok(map) => {
                    &&& db.registered().contains(selected_column_family(opt_cf))
                    &&& map.wf()
                    &&& map.column_family() == selected_column_family(opt_cf)
                    &&& map.database().identity() == db.identity()
                    &&& map.database().registered() == db.registered()
                },
                Err(e) => {
                    &&& !db.registered().contains(selected_column_family(opt_cf))
                    &&& e matches TypedStoreError::UnregisteredColumn(name)
                    &&& name@ == selected_column_family(opt_cf)
                },
            },
    {
        let cf_key: String = match opt_cf {
            Some(name) => name.to_string(),
            None => default_column_family(),
        };
        if !db.has_column_family(&cf_key) {
            return Err(TypedStoreError::UnregisteredColumn(cf_key));
        }
        Ok(DBMap { rocksdb: db.clone(), cf: cf_key, _phantom: PhantomData })
    }

    /// An empty batch for the database of this map.
    pub fn batch(&self) -> (batch: DBBatch)
        ensures
            batch.database().identity() == self.database().identity(),
            batch.database().registered() == self.database().registered(),
            batch.staged() == Seq::<Op>::empty(),
    {
        DBBatch::new(&self.rocksdb)
    }

    /// The database in which the map lives.
    pub fn db(&self) -> (db: &Database)
        ensures
            *db == self.database(),
    {
        &self.rocksdb
    }

    /// The name of the column family under which the map is stored.
    pub fn cf(&self) -> (name: &String)
        ensures
            name@ == self.column_family(),
    {
        &self.cf
    }
}

impl<K, V> Clone for DBMap<K, V> {
    fn clone(&self) -> (copy: Self)
        ensures
            copy.column_family() == self.column_family(),
            copy.database().identity() == self.database().identity(),
            copy.database().registered() == self.database().registered(),
    {
        DBMap { rocksdb: self.rocksdb.clone(), cf: self.cf.clone(), _phantom: PhantomData }
    }
}

/// The mathematical value of an optional value.
pub open spec fn option_view<V: View>(value: Option<V>) -> Option<V::V> {
    match value {
        Some(v) => Some(v@),
        None => None,
    }
}

/// Whether one reply of a batched lookup can be turned into a typed result:
/// the engine reported no error, and what it found decodes.
pub open spec fn reply_usable<V: ValueCodec>(reply: Result<Option<Vec<u8>>, String>) -> bool {
    match reply {
        Ok(Some(bytes)) => V::value_of(bytes@) is Some,
        Ok(None) => true,
        Err(_) => false,
    }
}

/// The typed result that a usable reply of a batched lookup stands for.
pub open spec fn reply_value<V: ValueCodec>(reply: Result<Option<Vec<u8>>, String>) -> Option<
    V::V,
> {
    match reply {
        Ok(Some(bytes)) => V::value_of(bytes@),
        _ => None,
    }
}

impl<K: KeyCodec, V: ValueCodec> DBMap<K, V> {
    /// The raw key to look up in the column family of the map in order to
    /// get the value of `key`.
    pub fn get_request(&self, key: &K) -> (r: Result<Vec<u8>, TypedStoreError>)
        ensures
            match r {
                Ok(bytes) => K::key_encodable(key@) && bytes@ == K::key_bytes(key@),
                Err(e) => !K::key_encodable(key@) && e is EncodingError,
            },
    {
        key.encode_key()
    }

    /// The value of a key, from what the engine found under its raw key.
    /// That nothing was found is no error.
    pub fn get_reply(&self, found: Option<&[u8]>) -> (r: Result<Option<V>, TypedStoreError>)
        ensures
            match r {
                Ok(Some(value)) => found matches Some(bytes) && V::value_of(bytes@) == Some(
                    value@,
                ),
                Ok(None) => found is None,
                Err(e) => found matches Some(bytes) && V::value_of(bytes@) is None
                    && e is DecodingError,
            },
    {
        match found {
            Some(data) => match V::decode_value(data) {
                Ok(value) => Ok(Some(value)),
                Err(e) => Err(e),
            },
            None => Ok(None),
        }
    }

    /// Whether a key is in the map, from what the engine found under its raw
    /// key: whether `get_reply` gives a value.
    pub fn contains_key_reply(&self, found: Option<&[u8]>) -> (r: Result<bool, TypedStoreError>)
        ensures
            match r {
                Ok(present) => present == (found is Some) && (found matches Some(bytes)
                    ==> V::value_of(bytes@) is Some),
                Err(e) => found matches Some(bytes) && V::value_of(bytes@) is None
                    && e is DecodingError,
            },
    {
        match self.get_reply(found) {
            Ok(value) => Ok(value.is_some()),
            Err(e) => Err(e),
        }
    }

    /// The write that stores `value` under `key`, whatever was there before.
    pub fn insert(&self, key: &K, value: &V) -> (r: Result<RawOp, TypedStoreError>)
        ensures
            match r {
                Ok(op) => {
                    &&& K::key_encodable(key@)
                    &&& V::value_encodable(value@)
                    &&& op@ == Op::Put {
                        cf: self.column_family(),
                        key: K::key_bytes(key@),
                        value: V::value_bytes(value@),
                    }
                },
                Err(e) => !(K::key_encodable(key@) && V::value_encodable(value@))
                    && e is EncodingError,
            },
    {
        let key_buf = match key.encode_key() {
            Ok(bytes) => bytes,
            Err(e) => {
                return Err(e);
            },
        };
        let value_buf = match value.encode_value() {
            Ok(bytes) => bytes,
            Err(e) => {
                return Err(e);
            },
        };
        Ok(RawOp::Put { cf: self.cf.clone(), key: key_buf, value: value_buf })
    }

    /// The write that removes `key`. Removing a key that is not there is no
    /// error.
    pub fn remove(&self, key: &K) -> (r: Result<RawOp, TypedStoreError>)
        ensures
            match r {
                Ok(op) => K::key_encodable(key@) && op@ == Op::Delete {
                    cf: self.column_family(),
                    key: K::key_bytes(key@),
                },
                Err(e) => !K::key_encodable(key@) && e is EncodingError,
            },
    {
        match key.encode_key() {
            Ok(key_buf) => Ok(RawOp::Delete { cf: self.cf.clone(), key: key_buf }),
            Err(e) => Err(e),
        }
    }

    /// A pass over the keys and values of the map, from its first key on.
    pub fn iter(&self) -> (cursor: Iter<K, V>)
        ensures
            !cursor.is_exhausted(),
    {
        Iter::new()
    }

    /// A pass over the keys of the map, from its first key on.
    pub fn keys(&self) -> (cursor: Keys<K>)
        ensures
            !cursor.is_exhausted(),
    {
        Keys::new()
    }

    /// A pass over the values of the map, from that of its first key on.
    pub fn values(&self) -> (cursor: Values<V>)
        ensures
            !cursor.is_exhausted(),
    {
        Values::new()
    }

    /// The raw keys to look up in the column family of the map in order to
    /// get the values of `keys`, one for each key and in the same order.
    pub fn multi_get_request(&self, keys: &[K]) -> (r: Result<Vec<Vec<u8>>, TypedStoreError>)
        ensures
            match r {
                Ok(raw) => {
                    &&& keys_encodable(keys@)
                    &&& raw@.len() == keys@.len()
                    &&& forall|i: int|
                        0 <= i < keys@.len() ==> (#[trigger] raw@[i])@ == K::key_bytes(keys@[i]@)
                },
                Err(e) => !keys_encodable(keys@) && e is EncodingError,
            },
    {
        let mut raw: Vec<Vec<u8>> = Vec::new();
        let mut i: usize = 0;
        while i < keys.len()
            invariant
                i <= keys.len(),
                raw@.len() == i,
                forall|j: int| 0 <= j < i ==> K::key_encodable(#[trigger] keys@[j]@),
                forall|j: int| 0 <= j < i ==> (#[trigger] raw@[j])@ == K::key_bytes(keys@[j]@),
            decreases keys.len() - i,
        {
            match keys[i].encode_key() {
                Ok(bytes) => {
                    raw.push(bytes);
                },
                Err(e) => {
                    assert(!K::key_encodable(keys@[i as int]@));
                    return Err(e);
                },
            }
            i += 1;
        }
        Ok(raw)
    }

    /// The values of the keys of a batched lookup, from the replies of the
    /// engine: one result for each reply, in the same order.
    ///
    /// The first reply that is an error of the engine, or that holds bytes
    /// that do not decode, fails the whole call: no entry is dropped.
    pub fn multi_get_reply(&self, replies: &[Result<Option<Vec<u8>>, String>]) -> (r: Result<
        Vec<Option<V>>,
        TypedStoreError,
    >)
        ensures
            match r {
                Ok(values) => {
                    &&& values@.len() == replies@.len()
                    &&& forall|i: int|
                        0 <= i < replies@.len() ==> reply_usable::<V>(#[trigger] replies@[i])
                            && option_view(values@[i]) == reply_value::<V>(replies@[i])
                            && (values@[i] is Some <==> replies@[i] matches Ok(Some(_)))
                },
                Err(e) => exists|i: int|
                    {
                        &&& 0 <= i < replies@.len()
                        &&& forall|j: int| 0 <= j < i ==> reply_usable::<V>(#[trigger] replies@[j])
                        &&& !reply_usable::<V>(replies@[i])
                        &&& match replies@[i] {
                            Err(message) => e matches TypedStoreError::RocksDBError(text)
                                && text@ == message@,
                            Ok(_) => e is DecodingError,
                        }
                    },
            },
    {
        let mut values: Vec<Option<V>> = Vec::new();
        let mut i: usize = 0;
        while i < replies.len()
            invariant
                i <= replies.len(),
                values@.len() == i,
                forall|j: int|
                    0 <= j < i ==> reply_usable::<V>(#[trigger] replies@[j]) && option_view(
                        values@[j],
                    ) == reply_value::<V>(replies@[j]) && (values@[j] is Some
                        <==> replies@[j] matches Ok(Some(_))),
            decreases replies.len() - i,
        {
            match &replies[i] {
                Err(message) => {
                    assert(!reply_usable::<V>(replies@[i as int]));
                    return Err(TypedStoreError::RocksDBError(message.clone()));
                },
                Ok(None) => {
                    values.push(None);
                },
                Ok(Some(data)) => match V::decode_value(data.as_slice()) {
                    Ok(value) => {
                        values.push(Some(value));
                    },
                    Err(e) => {
                        assert(!reply_usable::<V>(replies@[i as int]));
                        return Err(e);
                    },
                },
            }
            i += 1;
        }
        Ok(values)
    }
}

} // verus!
