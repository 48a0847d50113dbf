//! The raw operations that the engine carries out, and what they mean.
//!
//! The engine is an ordered store of byte strings, one per column family and
//! key. `apply` states what each operation does to such a store; it is the
//! meaning against which the typed operations of this crate are proved.
use vstd::prelude::*;

use crate::codec::{lex_le, lex_lt};

verus! {

/// One write against a column family, in bytes.
#[derive(Debug, Clone, PartialEq, Eq)]
pub enum RawOp {
    /// Store `value` under `key`, replacing what was there.
    Put { cf: String, key: Vec<u8>, value: Vec<u8> },
    /// Remove `key`, if it is there.
    Delete { cf: String, key: Vec<u8> },
    /// Remove every key from `from` on and before `to`.
    DeleteRange { cf: String, from: Vec<u8>, to: Vec<u8> },
}

/// The mathematical value of a `RawOp`.
pub enum Op {
    Put { cf: Seq<char>, key: Seq<u8>, value: Seq<u8> },
    Delete { cf: Seq<char>, key: Seq<u8> },
    DeleteRange { cf: Seq<char>, from: Seq<u8>, to: Seq<u8> },
}

impl View for RawOp {
    type V = Op;

    open spec fn view(&self) -> Op {
        match self {
            RawOp::Put { cf, key, value } => Op::Put { cf: cf@, key: key@, value: value@ },
            RawOp::Delete { cf, key } => Op::Delete { cf: cf@, key: key@ },
            RawOp::DeleteRange { cf, from, to } => Op::DeleteRange { cf: cf@, from: from@, to: to@ },
        }
    }
}

/// The operations in `ops`, as mathematical values.
pub open spec fn ops_of(ops: Seq<RawOp>) -> Seq<Op> {
    ops.map_values(|op: RawOp| op@)
}

/// The contents of a database: the bytes stored under each column family and
/// key.
pub type Store = Map<(Seq<char>, Seq<u8>), Seq<u8>>;

/// Whether `key` lies in the half-open range from `from` to `to`.
pub open spec fn in_range(key: Seq<u8>, from: Seq<u8>, to: Seq<u8>) -> bool {
    lex_le(from, key) && lex_lt(key, to)
}

/// The store after one operation.
pub open spec fn apply(store: Store, op: Op) -> Store {
    match op {
        Op::Put { cf, key, value } => store.insert((cf, key), value),
        Op::Delete { cf, key } => store.remove((cf, key)),
        Op::DeleteRange { cf, from, to } => store.remove_keys(
            Set::new(|at: (Seq<char>, Seq<u8>)| at.0 == cf && in_range(at.1, from, to)),
        ),
    }
}

/// The store after a sequence of operations, carried out in order.
pub open spec fn apply_all(store: Store, ops: Seq<Op>) -> Store
    decreases ops.len(),
{
    if ops.len() == 0 {
        store
    } else {
        apply(apply_all(store, ops.drop_last()), ops.last())
    }
}

/// What a point lookup of `key` in column family `cf` finds.
pub open spec fn lookup(store: Store, cf: Seq<char>, key: Seq<u8>) -> Option<Seq<u8>> {
    if store.contains_key((cf, key)) {
        Some(store[(cf, key)])
    } else {
        None
    }
}

} // verus!
