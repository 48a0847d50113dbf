//! Write batches: operations on several maps of one database, staged
//! together and committed as one.
use vstd::prelude::*;

use crate::database::Database;
use crate::errors::TypedStoreError;
use crate::key::KeyCodec;
use crate::map::DBMap;
use crate::ops::{ops_of, Op, RawOp};
use crate::value::ValueCodec;

verus! {

/// Whether every pair of `pairs` has an encoding for its key and its value.
pub open spec fn pairs_encodable<K: KeyCodec, V: ValueCodec>(pairs: Seq<(K, V)>) -> bool {
    forall|i: int|
        0 <= i < pairs.len() ==> K::key_encodable(#[trigger] pairs[i].0@) && V::value_encodable(
            pairs[i].1@,
        )
}

/// Whether every key of `keys` has an encoding.
pub open spec fn keys_encodable<K: KeyCodec>(keys: Seq<K>) -> bool {
    forall|i: int| 0 <= i < keys.len() ==> K::key_encodable(#[trigger] keys[i]@)
}

/// One put into `cf` for each pair, in order.
pub open spec fn puts<K: KeyCodec, V: ValueCodec>(cf: Seq<char>, pairs: Seq<(K, V)>) -> Seq<Op> {
    Seq::new(
        pairs.len(),
        |i: int|
            Op::Put { cf, key: K::key_bytes(pairs[i].0@), value: V::value_bytes(pairs[i].1@) },
    )
}

/// One delete from `cf` for each key, in order.
pub open spec fn deletes<K: KeyCodec>(cf: Seq<char>, keys: Seq<K>) -> Seq<Op> {
    Seq::new(keys.len(), |i: int| Op::Delete { cf, key: K::key_bytes(keys[i]@) })
}

/// A collection of write operations on one database, to be carried out
/// together: either all of them become visible or none does, also where they
/// touch several column families.
///
/// Each operation names the map it is for, which supplies the column family
/// and the encoding. A map of another database is refused.
#[derive(Debug)]
pub struct DBBatch {
    rocksdb: Database,
    batch: Vec<RawOp>,
}

impl DBBatch {
    /// The database for which the batch was made.
    pub closed spec fn database(&self) -> Database {
        self.rocksdb
    }

    /// The operations staged so far, in the order in which they will be
    /// carried out.
    pub closed spec fn staged(&self) -> Seq<Op> {
        ops_of(self.batch@)
    }

    /// An empty batch for the database `dbref`.
    pub fn new(dbref: &Database) -> (batch: Self)
        ensures
            batch.database().identity() == dbref.identity(),
            batch.database().registered() == dbref.registered(),
            batch.staged() == Seq::<Op>::empty(),
    {
        let batch = DBBatch { rocksdb: dbref.clone(), batch: Vec::new() };
        assert(batch.staged() =~= Seq::<Op>::empty());
        batch
    }

    /// Consumes the batch and hands out its operations, which the engine is
    /// to commit as one atomic write.
    pub fn write(self) -> (ops: Vec<RawOp>)
        ensures
            ops_of(ops@) == self.staged(),
    {
        self.batch
    }

    /// Stages the removal of each key of `purged_vals` from the map `db`.
    pub fn delete_batch<K: KeyCodec, V>(self, db: &DBMap<K, V>, purged_vals: &[K]) -> (r: Result<
        Self,
        TypedStoreError,
    >)
        ensures
            match r {
                Ok(batch) => {
                    &&& db.database().identity() == self.database().identity()
                    &&& keys_encodable(purged_vals@)
                    &&& batch.database() == self.database()
                    &&& batch.staged() == self.staged() + deletes(
                        db.column_family(),
                        purged_vals@,
                    )
                },
                Err(e) => if db.database().identity() != self.database().identity() {
                    e is CrossDBBatch
                } else {
                    !keys_encodable(purged_vals@) && e is EncodingError
                },
            },
    {
        if db.db().id() != self.rocksdb.id() {
            return Err(TypedStoreError::CrossDBBatch);
        }
        let ghost before = self.staged();
        let ghost cf = db.column_family();
        let mut ops = self.batch;
        let mut i: usize = 0;
        while i < purged_vals.len()
            invariant
                i <= purged_vals.len(),
                cf == db.column_family(),
                db.database().identity() == self.database().identity(),
                forall|j: int| 0 <= j < i ==> K::key_encodable(#[trigger] purged_vals@[j]@),
                ops_of(ops@) == before + deletes(cf, purged_vals@.subrange(0, i as int)),
            decreases purged_vals.len() - i,
        {
            match purged_vals[i].encode_key() {
                Err(e) => {
                    assert(!K::key_encodable(purged_vals@[i as int]@));
                    return Err(e);
                },
                Ok(k_buf) => {
                    let ghost staged = ops_of(ops@);
                    let op = RawOp::Delete { cf: db.cf().clone(), key: k_buf };
                    ops.push(op);
                    assert(ops_of(ops@) =~= staged.push(op@));
                    assert(before + deletes(cf, purged_vals@.subrange(0, i + 1)) =~= (before
                        + deletes(cf, purged_vals@.subrange(0, i as int))).push(op@));
                },
            }
            i += 1;
        }
        assert(purged_vals@.subrange(0, i as int) =~= purged_vals@);
        Ok(DBBatch { rocksdb: self.rocksdb, batch: ops })
    }

    /// Stages the removal of every key from `from` on and before `to` from
    /// the map `db`: `from` itself goes, `to` itself stays.
    pub fn delete_range<K: KeyCodec, V>(self, db: &DBMap<K, V>, from: &K, to: &K) -> (r: Result<
        Self,
        TypedStoreError,
    >)
        ensures
            match r {
                Ok(batch) => {
                    &&& db.database().identity() == self.database().identity()
                    &&& K::key_encodable(from@) && K::key_encodable(to@)
                    &&& batch.database() == self.database()
                    &&& batch.staged() == self.staged().push(
                        Op::DeleteRange {
                            cf: db.column_family(),
                            from: K::key_bytes(from@),
                            to: K::key_bytes(to@),
                        },
                    )
                },
                Err(e) => if db.database().identity() != self.database().identity() {
                    e is CrossDBBatch
                } else {
                    !(K::key_encodable(from@) && K::key_encodable(to@)) && e is EncodingError
                },
            },
    {
        if db.db().id() != self.rocksdb.id() {
            return Err(TypedStoreError::CrossDBBatch);
        }
        let from_buf = match from.encode_key() {
            Ok(bytes) => bytes,
            Err(e) => {
                return Err(e);
            },
        };
        let to_buf = match to.encode_key() {
            Ok(bytes) => bytes,
            Err(e) => {
                return Err(e);
            },
        };
        let ghost staged = self.staged();
        let mut ops = self.batch;
        let op = RawOp::DeleteRange { cf: db.cf().clone(), from: from_buf, to: to_buf };
        ops.push(op);
        assert(ops_of(ops@) =~= staged.push(op@));
        Ok(DBBatch { rocksdb: self.rocksdb, batch: ops })
    }

    /// Stages the insertion of each pair of `new_vals` into the map `db`.
    pub fn insert_batch<K: KeyCodec, V: ValueCodec>(
        self,
        db: &DBMap<K, V>,
        new_vals: &[(K, V)],
    ) -> (r: Result<Self, TypedStoreError>)
        ensures
            match r {
                Ok(batch) => {
                    &&& db.database().identity() == self.database().identity()
                    &&& pairs_encodable(new_vals@)
                    &&& batch.database() == self.database()
                    &&& batch.staged() == self.staged() + puts(db.column_family(), new_vals@)
                },
                Err(e) => if db.database().identity() != self.database().identity() {
                    e is CrossDBBatch
                } else {
                    !pairs_encodable(new_vals@) && e is EncodingError
                },
            },
    {
        if db.db().id() != self.rocksdb.id() {
            return Err(TypedStoreError::CrossDBBatch);
        }
        let ghost before = self.staged();
        let ghost cf = db.column_family();
        let mut ops = self.batch;
        let mut i: usize = 0;
        while i < new_vals.len()
            invariant
                i <= new_vals.len(),
                cf == db.column_family(),
                db.database().identity() == self.database().identity(),
                pairs_encodable(new_vals@.subrange(0, i as int)),
                ops_of(ops@) == before + puts(cf, new_vals@.subrange(0, i as int)),
            decreases new_vals.len() - i,
        {
            let k_buf = match new_vals[i].0.encode_key() {
                Ok(bytes) => bytes,
                Err(e) => {
                    assert(!K::key_encodable(new_vals@[i as int].0@));
                    return Err(e);
                },
            };
            let v_buf = match new_vals[i].1.encode_value() {
                Ok(bytes) => bytes,
                Err(e) => {
                    assert(K::key_encodable(new_vals@[i as int].0@));
                    assert(!V::value_encodable(new_vals@[i as int].1@));
                    return Err(e);
                },
            };
            assert forall|j: int| 0 <= j < i + 1 implies K::key_encodable(
                #[trigger] new_vals@.subrange(0, i + 1)[j].0@,
            ) && V::value_encodable(new_vals@.subrange(0, i + 1)[j].1@) by {
                if j < i {
                    assert(new_vals@.subrange(0, i + 1)[j] == new_vals@.subrange(0, i as int)[j]);
                }
            }
            let ghost staged = ops_of(ops@);
            let op = RawOp::Put { cf: db.cf().clone(), key: k_buf, value: v_buf };
            ops.push(op);
            assert(ops_of(ops@) =~= staged.push(op@));
            assert(before + puts(cf, new_vals@.subrange(0, i + 1)) =~= (before + puts(
                cf,
                new_vals@.subrange(0, i as int),
            )).push(op@));
            i += 1;
        }
        assert(new_vals@.subrange(0, i as int) =~= new_vals@);
        Ok(DBBatch { rocksdb: self.rocksdb, batch: ops })
    }
}

} // verus!
