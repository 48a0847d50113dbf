//! The calls into `bincode`, which does the actual reading and writing of
//! bytes. Nothing in this file is proved: each contract records what the
//! called function does, and the rest of the crate is verified against it.
use bincode::Options;
use vstd::prelude::*;

use vstd::utf8::{decode_utf8, encode_utf8, valid_utf8};

use crate::codec::{be_bytes, be_value, framed, le_bytes, le_value, unframed};

verus! {

/// `bincode::ErrorKind`, the error of every call into `bincode`. Nothing is
/// known of its contents here; it is only carried to `describe`.
#[verifier::external_type_specification]
#[verifier::external_body]
pub struct ExBincodeErrorKind(bincode::ErrorKind);

/// `bincode::ErrorKind`'s `Display`: the text of a `bincode` error. Nothing
/// is claimed of the text.
#[verifier::external_body]
pub(crate) fn describe(error: &bincode::ErrorKind) -> String {
    format!("{}", error)
}

/// `bincode::Options::serialize` on a `u64`, configured big-endian with
/// fixed-width integers: always succeeds and yields the eight bytes of the
/// number, most significant first.
#[verifier::external_body]
pub(crate) fn write_key_u64(key: u64) -> (r: Result<Vec<u8>, Box<bincode::ErrorKind>>)
    ensures
        r is Ok,
        r.unwrap()@ == be_bytes(key as nat, 8),
{
    bincode::DefaultOptions::new().with_big_endian().with_fixint_encoding().serialize(&key)
}

/// `bincode::Options::deserialize` to a `u64`, configured big-endian with
/// fixed-width integers and rejecting trailing bytes: succeeds exactly on
/// inputs of eight bytes, and yields the number they spell, most significant
/// byte first.
#[verifier::external_body]
pub(crate) fn read_key_u64(bytes: &[u8]) -> (r: Result<u64, Box<bincode::ErrorKind>>)
    ensures
        r is Ok <==> bytes@.len() == 8,
        r is Ok ==> r.unwrap() as nat == be_value(bytes@),
{
    bincode::DefaultOptions::new().with_big_endian().with_fixint_encoding().deserialize(bytes)
}

/// `bincode::serialize` on a `u64`: always succeeds and yields the eight
/// bytes of the number, least significant first.
#[verifier::external_body]
pub(crate) fn write_value_u64(value: u64) -> (r: Result<Vec<u8>, Box<bincode::ErrorKind>>)
    ensures
        r is Ok,
        r.unwrap()@ == le_bytes(value as nat, 8),
{
    bincode::serialize(&value)
}

/// `bincode::deserialize` to a `u64`: succeeds exactly on inputs of at least
/// eight bytes, and yields the number that the first eight spell, least
/// significant byte first. Bytes after them are ignored.
#[verifier::external_body]
pub(crate) fn read_value_u64(bytes: &[u8]) -> (r: Result<u64, Box<bincode::ErrorKind>>)
    ensures
        r is Ok <==> bytes@.len() >= 8,
        r is Ok ==> r.unwrap() as nat == le_value(bytes@.subrange(0, 8)),
{
    bincode::deserialize(bytes)
}

/// `bincode::Options::serialize` on a `u32`, configured big-endian with
/// fixed-width integers: always succeeds and yields the four bytes of the
/// number, most significant first.
#[verifier::external_body]
pub(crate) fn write_key_u32(key: u32) -> (r: Result<Vec<u8>, Box<bincode::ErrorKind>>)
    ensures
        r is Ok,
        r.unwrap()@ == be_bytes(key as nat, 4),
{
    bincode::DefaultOptions::new().with_big_endian().with_fixint_encoding().serialize(&key)
}

/// `bincode::Options::deserialize` to a `u32`, configured big-endian with
/// fixed-width integers and rejecting trailing bytes: succeeds exactly on
/// inputs of four bytes, and yields the number they spell, most significant
/// byte first.
#[verifier::external_body]
pub(crate) fn read_key_u32(bytes: &[u8]) -> (r: Result<u32, Box<bincode::ErrorKind>>)
    ensures
        r is Ok <==> bytes@.len() == 4,
        r is Ok ==> r.unwrap() as nat == be_value(bytes@),
{
    bincode::DefaultOptions::new().with_big_endian().with_fixint_encoding().deserialize(bytes)
}

/// `bincode::serialize` on a `Vec<u8>`: always succeeds and yields the
/// number of bytes as eight bytes, least significant first, followed by the
/// bytes themselves.
#[verifier::external_body]
pub(crate) fn write_value_bytes(value: &Vec<u8>) -> (r: Result<Vec<u8>, Box<bincode::ErrorKind>>)
    ensures
        r is Ok,
        r.unwrap()@ == framed(value@),
{
    bincode::serialize(value)
}

/// `bincode::deserialize` to a `Vec<u8>`: reads a length from the first
/// eight bytes, least significant first, and succeeds exactly if at least
/// that many bytes follow, which it yields. Bytes after them are ignored.
#[verifier::external_body]
pub(crate) fn read_value_bytes(bytes: &[u8]) -> (r: Result<Vec<u8>, Box<bincode::ErrorKind>>)
    ensures
        r is Ok <==> unframed(bytes@) is Some,
        r is Ok ==> Some(r.unwrap()@) == unframed(bytes@),
{
    bincode::deserialize(bytes)
}

/// `bincode::serialize` on a `String`: always succeeds and yields the
/// number of bytes of the UTF-8 form of the text as eight bytes, least
/// significant first, followed by that UTF-8 form.
#[verifier::external_body]
pub(crate) fn write_value_string(value: &String) -> (r: Result<Vec<u8>, Box<bincode::ErrorKind>>)
    ensures
        r is Ok,
        r.unwrap()@ == framed(encode_utf8(value@)),
{
    bincode::serialize(value)
}

/// `bincode::deserialize` to a `String`: reads a length from the first
/// eight bytes, least significant first, and succeeds exactly if at least
/// that many bytes follow and they are valid UTF-8; it yields the text they
/// spell. Bytes after them are ignored.
#[verifier::external_body]
pub(crate) fn read_value_string(bytes: &[u8]) -> (r: Result<String, Box<bincode::ErrorKind>>)
    ensures
        r is Ok <==> (unframed(bytes@) matches Some(payload) && valid_utf8(payload)),
        r is Ok ==> r.unwrap()@ == decode_utf8(unframed(bytes@).unwrap()),
{
    bincode::deserialize(bytes)
}

} // verus!
