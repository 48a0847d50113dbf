//! Keys: types with an order-preserving byte encoding.
use vstd::prelude::*;

use crate::codec::{be_bytes, be_value, lex_lt};
use crate::codec::{
    lemma_be_bytes_len, lemma_be_bytes_of_be_value, lemma_be_bytes_order, lemma_be_value_bound,
    lemma_be_value_of_be_bytes, lemma_capacity_of_words,
};
use crate::errors::TypedStoreError;
use crate::wire::{describe, read_key_u32, read_key_u64, write_key_u32, write_key_u64};

verus! {

/// A type that can serve as the key of a map.
///
/// Its encoding has a fixed shape and keeps the order of the keys: comparing
/// two encodings byte by byte gives the same answer as comparing the keys.
/// Range deletion and ordered iteration rest on this.
pub trait KeyCodec: View + Sized {
    /// Whether the key has an encoding at all.
    spec fn key_encodable(key: Self::V) -> bool;

    /// The bytes under which the key is stored.
    spec fn key_bytes(key: Self::V) -> Seq<u8>;

    /// The key that a byte string stands for, if it stands for one.
    spec fn key_of(bytes: Seq<u8>) -> Option<Self::V>;

    /// The natural order of the keys.
    spec fn key_lt(a: Self::V, b: Self::V) -> bool;

    /// Decoding undoes encoding, and only encodings decode.
    proof fn key_round_trip(key: Self::V)
        requires
            Self::key_encodable(key),
        ensures
            Self::key_of(Self::key_bytes(key)) == Some(key),
    ;

    /// A byte string decodes to the key whose encoding it is, or not at all.
    proof fn key_bytes_exact(bytes: Seq<u8>)
        ensures
            Self::key_of(bytes) matches Some(key) ==> Self::key_encodable(key) && Self::key_bytes(
                key,
            ) == bytes,
    ;

    /// The encoding keeps the order.
    proof fn key_order_preserved(a: Self::V, b: Self::V)
        requires
            Self::key_encodable(a),
            Self::key_encodable(b),
        ensures
            lex_lt(Self::key_bytes(a), Self::key_bytes(b)) <==> Self::key_lt(a, b),
    ;

    /// Encodes the key.
    fn encode_key(&self) -> (r: Result<Vec<u8>, TypedStoreError>)
        ensures
            match r {
                Ok(bytes) => Self::key_encodable(self@) && bytes@ == Self::key_bytes(self@),
                Err(e) => !Self::key_encodable(self@) && e is EncodingError,
            },
    ;

    /// Decodes a key from exactly the bytes given.
    fn decode_key(bytes: &[u8]) -> (r: Result<Self, TypedStoreError>)
        ensures
            match r {
                Ok(key) => Self::key_of(bytes@) == Some(key@),
                Err(e) => Self::key_of(bytes@) is None && e is DecodingError,
            },
    ;
}

impl KeyCodec for u64 {
    open spec fn key_encodable(key: u64) -> bool {
        true
    }

    open spec fn key_bytes(key: u64) -> Seq<u8> {
        be_bytes(key as nat, 8)
    }

    open spec fn key_of(bytes: Seq<u8>) -> Option<u64> {
        if bytes.len() == 8 {
            Some(be_value(bytes) as u64)
        } else {
            None
        }
    }

    open spec fn key_lt(a: u64, b: u64) -> bool {
        a < b
    }

    proof fn key_round_trip(key: u64) {
        lemma_capacity_of_words();
        lemma_be_bytes_len(key as nat, 8);
        lemma_be_value_of_be_bytes(key as nat, 8);
    }

    proof fn key_bytes_exact(bytes: Seq<u8>) {
        if bytes.len() == 8 {
            lemma_capacity_of_words();
            lemma_be_value_bound(bytes);
            lemma_be_bytes_of_be_value(bytes);
        }
    }

    proof fn key_order_preserved(a: u64, b: u64) {
        lemma_capacity_of_words();
        lemma_be_bytes_order(a as nat, b as nat, 8);
    }

    fn encode_key(&self) -> (r: Result<Vec<u8>, TypedStoreError>) {
        match write_key_u64(*self) {
            Ok(bytes) => Ok(bytes),
            Err(e) => Err(TypedStoreError::EncodingError(describe(&e))),
        }
    }

    fn decode_key(bytes: &[u8]) -> (r: Result<u64, TypedStoreError>) {
        match read_key_u64(bytes) {
            Ok(key) => {
                proof {
                    lemma_capacity_of_words();
                    lemma_be_value_bound(bytes@);
                }
                Ok(key)
            },
            Err(e) => Err(TypedStoreError::DecodingError(describe(&e))),
        }
    }
}

impl KeyCodec for u32 {
    open spec fn key_encodable(key: u32) -> bool {
        true
    }

    open spec fn key_bytes(key: u32) -> Seq<u8> {
        be_bytes(key as nat, 4)
    }

    open spec fn key_of(bytes: Seq<u8>) -> Option<u32> {
        if bytes.len() == 4 {
            Some(be_value(bytes) as u32)
        } else {
            None
        }
    }

    open spec fn key_lt(a: u32, b: u32) -> bool {
        a < b
    }

    proof fn key_round_trip(key: u32) {
        lemma_capacity_of_words();
        lemma_be_bytes_len(key as nat, 4);
        lemma_be_value_of_be_bytes(key as nat, 4);
    }

    proof fn key_bytes_exact(bytes: Seq<u8>) {
        if bytes.len() == 4 {
            lemma_capacity_of_words();
            lemma_be_value_bound(bytes);
            lemma_be_bytes_of_be_value(bytes);
        }
    }

    proof fn key_order_preserved(a: u32, b: u32) {
        lemma_capacity_of_words();
        lemma_be_bytes_order(a as nat, b as nat, 4);
    }

    fn encode_key(&self) -> (r: Result<Vec<u8>, TypedStoreError>) {
        match write_key_u32(*self) {
            Ok(bytes) => Ok(bytes),
            Err(e) => Err(TypedStoreError::EncodingError(describe(&e))),
        }
    }

    fn decode_key(bytes: &[u8]) -> (r: Result<u32, TypedStoreError>) {
        match read_key_u32(bytes) {
            Ok(key) => {
                proof {
                    lemma_capacity_of_words();
                    lemma_be_value_bound(bytes@);
                }
                Ok(key)
            },
            Err(e) => Err(TypedStoreError::DecodingError(describe(&e))),
        }
    }
}

} // verus!
