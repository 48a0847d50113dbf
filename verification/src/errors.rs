//! The errors of a typed store.
use vstd::prelude::*;
use vstd::string::StringExecFns;

verus! {

/// Everything that can go wrong in a typed store.
#[derive(Debug, Clone, PartialEq, Eq)]
pub enum TypedStoreError {
    /// The engine reported a failure; the payload is its message, verbatim.
    RocksDBError(String),
    /// A key or a value could not be turned into bytes.
    EncodingError(String),
    /// Stored bytes do not have the shape of the expected type.
    DecodingError(String),
    /// The named column family was not registered when the database was opened.
    UnregisteredColumn(String),
    /// A batch operation was given a map that lives in another database.
    CrossDBBatch,
}

impl TypedStoreError {
    /// The text that describes the error.
    pub open spec fn message_text(&self) -> Seq<char> {
        match self {
            TypedStoreError::RocksDBError(detail) => "rocksdb error: "@ + detail@,
            TypedStoreError::EncodingError(detail) => "encoding error: "@ + detail@,
            TypedStoreError::DecodingError(detail) => "decoding error: "@ + detail@,
            TypedStoreError::UnregisteredColumn(name) => "the column family "@ + name@
                + " was not registered with the database"@,
            TypedStoreError::CrossDBBatch => "a batch operation can't operate across databases"@,
        }
    }

    /// The text that describes the error.
    pub fn message(&self) -> (text: String)
        ensures
            text@ == self.message_text(),
    {
        match self {
            TypedStoreError::RocksDBError(detail) => "rocksdb error: ".to_string().concat(
                detail.as_str(),
            ),
            TypedStoreError::EncodingError(detail) => "encoding error: ".to_string().concat(
                detail.as_str(),
            ),
            TypedStoreError::DecodingError(detail) => "decoding error: ".to_string().concat(
                detail.as_str(),
            ),
            TypedStoreError::UnregisteredColumn(name) => "the column family ".to_string().concat(
                name.as_str(),
            ).concat(" was not registered with the database"),
            TypedStoreError::CrossDBBatch => "a batch operation can't operate across databases".to_string(),
        }
    }
}

} // verus!
