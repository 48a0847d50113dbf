//! Values: types with a compact, reversible byte encoding.
use vstd::prelude::*;

use vstd::utf8::{
    decode_utf8, encode_utf8, encode_utf8_decode_utf8, encode_utf8_valid_utf8, valid_utf8,
};

use crate::codec::{
    framed, le_bytes, le_value, lemma_capacity_of_words, lemma_le_bytes_len, lemma_le_value_bound,
    lemma_framed_len, lemma_le_value_of_le_bytes, lemma_unframed_of_framed, unframed,
};
use crate::errors::TypedStoreError;
use crate::wire::{
    describe, read_value_bytes, read_value_string, read_value_u64, write_value_bytes,
    write_value_string, write_value_u64,
};

verus! {

/// A type that can serve as the value of a map.
///
/// Values are never compared or scanned by their bytes, so all that is asked
/// of the encoding is that decoding undoes it.
pub trait ValueCodec: View + Sized {
    /// Whether the value has an encoding at all.
    spec fn value_encodable(value: Self::V) -> bool;

    /// The bytes that are stored for the value.
    spec fn value_bytes(value: Self::V) -> Seq<u8>;

    /// The value that a byte string stands for, if it stands for one.
    spec fn value_of(bytes: Seq<u8>) -> Option<Self::V>;

    /// Decoding undoes encoding.
    proof fn value_round_trip(value: Self::V)
        requires
            Self::value_encodable(value),
        ensures
            Self::value_of(Self::value_bytes(value)) == Some(value),
    ;

    /// Encodes the value.
    fn encode_value(&self) -> (r: Result<Vec<u8>, TypedStoreError>)
        ensures
            match r {
                Ok(bytes) => Self::value_encodable(self@) && bytes@ == Self::value_bytes(self@),
                Err(e) => !Self::value_encodable(self@) && e is EncodingError,
            },
    ;

    /// Decodes a value from the front of the bytes given.
    fn decode_value(bytes: &[u8]) -> (r: Result<Self, TypedStoreError>)
        ensures
            match r {
                Ok(value) => Self::value_of(bytes@) == Some(value@),
                Err(e) => Self::value_of(bytes@) is None && e is DecodingError,
            },
    ;
}

impl ValueCodec for u64 {
    open spec fn value_encodable(value: u64) -> bool {
        true
    }

    open spec fn value_bytes(value: u64) -> Seq<u8> {
        le_bytes(value as nat, 8)
    }

    open spec fn value_of(bytes: Seq<u8>) -> Option<u64> {
        if bytes.len() >= 8 {
            Some(le_value(bytes.subrange(0, 8)) as u64)
        } else {
            None
        }
    }

    proof fn value_round_trip(value: u64) {
        lemma_capacity_of_words();
        lemma_le_bytes_len(value as nat, 8);
        lemma_le_value_of_le_bytes(value as nat, 8);
        assert(le_bytes(value as nat, 8).subrange(0, 8) =~= le_bytes(value as nat, 8));
    }

    fn encode_value(&self) -> (r: Result<Vec<u8>, TypedStoreError>) {
        match write_value_u64(*self) {
            Ok(bytes) => Ok(bytes),
            Err(e) => Err(TypedStoreError::EncodingError(describe(&e))),
        }
    }

    fn decode_value(bytes: &[u8]) -> (r: Result<u64, TypedStoreError>) {
        match read_value_u64(bytes) {
            Ok(value) => {
                proof {
                    lemma_capacity_of_words();
                    lemma_le_value_bound(bytes@.subrange(0, 8));
                }
                Ok(value)
            },
            Err(e) => Err(TypedStoreError::DecodingError(describe(&e))),
        }
    }
}

impl ValueCodec for Vec<u8> {
    open spec fn value_encodable(value: Seq<u8>) -> bool {
        value.len() < 0x1_0000_0000_0000_0000
    }

    open spec fn value_bytes(value: Seq<u8>) -> Seq<u8> {
        framed(value)
    }

    open spec fn value_of(bytes: Seq<u8>) -> Option<Seq<u8>> {
        unframed(bytes)
    }

    proof fn value_round_trip(value: Seq<u8>) {
        lemma_unframed_of_framed(value);
    }

    fn encode_value(&self) -> (r: Result<Vec<u8>, TypedStoreError>) {
        match write_value_bytes(self) {
            Ok(bytes) => {
                let stored: usize = bytes.len();
                proof {
                    lemma_framed_len(self@);
                }
                Ok(bytes)
            },
            Err(e) => Err(TypedStoreError::EncodingError(describe(&e))),
        }
    }

    fn decode_value(bytes: &[u8]) -> (r: Result<Vec<u8>, TypedStoreError>) {
        match read_value_bytes(bytes) {
            Ok(value) => Ok(value),
            Err(e) => Err(TypedStoreError::DecodingError(describe(&e))),
        }
    }
}

impl ValueCodec for String {
    open spec fn value_encodable(value: Seq<char>) -> bool {
        encode_utf8(value).len() < 0x1_0000_0000_0000_0000
    }

    open spec fn value_bytes(value: Seq<char>) -> Seq<u8> {
        framed(encode_utf8(value))
    }

    open spec fn value_of(bytes: Seq<u8>) -> Option<Seq<char>> {
        match unframed(bytes) {
            Some(payload) => if valid_utf8(payload) {
                Some(decode_utf8(payload))
            } else {
                None
            },
            None => None,
        }
    }

    proof fn value_round_trip(value: Seq<char>) {
        lemma_unframed_of_framed(encode_utf8(value));
        encode_utf8_valid_utf8(value);
        encode_utf8_decode_utf8(value);
    }

    fn encode_value(&self) -> (r: Result<Vec<u8>, TypedStoreError>) {
        match write_value_string(self) {
            Ok(bytes) => {
                let stored: usize = bytes.len();
                proof {
                    lemma_framed_len(encode_utf8(self@));
                }
                Ok(bytes)
            },
            Err(e) => Err(TypedStoreError::EncodingError(describe(&e))),
        }
    }

    fn decode_value(bytes: &[u8]) -> (r: Result<String, TypedStoreError>) {
        match read_value_string(bytes) {
            Ok(value) => Ok(value),
            Err(e) => Err(TypedStoreError::DecodingError(describe(&e))),
        }
    }
}

} // verus!
