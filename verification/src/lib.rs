//! A typed, ordered key-value map over the column families of one shared
//! storage engine.
//!
//! The engine only understands byte strings. This crate holds everything that
//! sits between typed keys and values and those bytes: the order-preserving
//! key encoding, the staging of atomic write batches that span several maps,
//! the decoding cursors, and the bookkeeping of column families. Every
//! function states its behaviour in a contract that is checked statically.
//!
//! The engine itself is driven by the caller: each operation of a map is
//! split into the raw request it issues and the interpretation of the raw
//! reply, so that no function here performs I/O.
pub mod batch;
pub mod codec;
pub mod cursor;
pub mod database;
pub mod errors;
pub mod key;
pub mod laws;
pub mod map;
pub mod ops;
pub mod value;
pub mod wire;

pub use batch::DBBatch;
pub use database::{open_cf, Database};
pub use errors::TypedStoreError;
pub use map::DBMap;
