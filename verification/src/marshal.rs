//! Fixed-width little-endian (de)serialization of the values the codec
//! supports: the encoding used for headers and bodies on the wire.
//!
//! Integers are little-endian and fixed width; `bool` is one byte (0 or 1);
//! strings and byte arrays carry a `u64` byte-length prefix; the unit value
//! is empty. Every `unmarshal` here consumes the whole buffer: a frame
//! payload is exactly one marshalled value.

use vstd::prelude::*;
use vstd::bytes::*;
use vstd::string::*;
use vstd::utf8::*;
use crate::error::{Error, ErrorV};

verus! {

/// Message shown when a buffer does not decode as the expected value.
pub open spec fn spec_decode_error_message() -> Seq<char> {
    "Buffer does not decode as a value of the expected type"@
}

fn decode_error() -> (r: Error)
    ensures
        r@ == ErrorV::ParseError(spec_decode_error_message()),
{
    Error::ParseError(String::from_str("Buffer does not decode as a value of the expected type"))
}

/// Relies on `String::from_utf8`: it accepts exactly the byte sequences that
/// are valid UTF-8 and decodes them to the characters they encode; vstd's
/// `valid_utf8` and `decode_utf8` model that encoding (see vstd's own
/// specification of `str::from_utf8_unchecked`).
#[verifier::external_body]
fn vec_to_string(v: Vec<u8>) -> (r: Option<String>)
    ensures
        r is Some <==> valid_utf8(v@),
        r matches Some(s) ==> s@ == decode_utf8(v@),
{
    match String::from_utf8(v) {
        Ok(s) => Some(s),
        Err(_) => None,
    }
}

/// Wire form of a `bool`: one byte, 1 for true and 0 for false.
pub open spec fn spec_marshal_bool(x: bool) -> Seq<u8> {
    seq![if x { 1u8 } else { 0u8 }]
}

/// The `bool` a buffer decodes to; only the exact one-byte forms decode.
pub open spec fn spec_unmarshal_bool(b: Seq<u8>) -> Option<bool> {
    if b.len() == 1 && b[0] == 0 {
        Some(false)
    } else if b.len() == 1 && b[0] == 1 {
        Some(true)
    } else {
        None
    }
}

pub fn marshal_bool(x: bool) -> (r: Vec<u8>)
    ensures
        r@ == spec_marshal_bool(x),
{
    let mut v: Vec<u8> = Vec::new();
    v.push(if x { 1 } else { 0 });
    proof {
        assert(v@ =~= spec_marshal_bool(x));
    }
    v
}

pub fn unmarshal_bool(b: &[u8]) -> (r: Result<bool, Error>)
    ensures
        spec_unmarshal_bool(b@) matches Some(v) ==> r == Ok::<bool, Error>(v),
        spec_unmarshal_bool(b@) is None ==> (r matches Err(e)
            && e@ == ErrorV::ParseError(spec_decode_error_message())),
{
    if b.len() != 1 {
        return Err(decode_error());
    }
    let x = *vstd::slice::slice_index_get(b, 0);
    if x == 0 {
        Ok(false)
    } else if x == 1 {
        Ok(true)
    } else {
        Err(decode_error())
    }
}

/// Decoding inverts encoding for `bool`.
pub proof fn lemma_bool_round_trip(x: bool)
    ensures
        spec_unmarshal_bool(spec_marshal_bool(x)) == Some(x),
{
}

/// Wire form of an `i32`: its four two's-complement bytes, little-endian.
pub open spec fn spec_marshal_i32(x: i32) -> Seq<u8> {
    spec_u32_to_le_bytes(x as u32)
}

/// The `i32` a buffer decodes to; only exact four-byte buffers decode.
pub open spec fn spec_unmarshal_i32(b: Seq<u8>) -> Option<i32> {
    if b.len() == 4 {
        Some(spec_u32_from_le_bytes(b) as i32)
    } else {
        None
    }
}

pub fn marshal_i32(x: i32) -> (r: Vec<u8>)
    ensures
        r@ == spec_marshal_i32(x),
{
    u32_to_le_bytes(x as u32)
}

pub fn unmarshal_i32(b: &[u8]) -> (r: Result<i32, Error>)
    ensures
        spec_unmarshal_i32(b@) matches Some(v) ==> r == Ok::<i32, Error>(v),
        spec_unmarshal_i32(b@) is None ==> (r matches Err(e)
            && e@ == ErrorV::ParseError(spec_decode_error_message())),
{
    if b.len() != 4 {
        return Err(decode_error());
    }
    let x = u32_from_le_bytes(b);
    Ok(x as i32)
}

/// Decoding inverts encoding for `i32`.
pub proof fn lemma_i32_round_trip(x: i32)
    ensures
        spec_unmarshal_i32(spec_marshal_i32(x)) == Some(x),
{
    lemma_auto_spec_u32_to_from_le_bytes();
    assert((x as u32) as i32 == x) by (bit_vector);
}

/// Wire form of a `u64`: its eight bytes, little-endian.
pub open spec fn spec_marshal_u64(x: u64) -> Seq<u8> {
    spec_u64_to_le_bytes(x)
}

/// The `u64` a buffer decodes to; only exact eight-byte buffers decode.
pub open spec fn spec_unmarshal_u64(b: Seq<u8>) -> Option<u64> {
    if b.len() == 8 {
        Some(spec_u64_from_le_bytes(b))
    } else {
        None
    }
}

pub fn marshal_u64(x: u64) -> (r: Vec<u8>)
    ensures
        r@ == spec_marshal_u64(x),
{
    u64_to_le_bytes(x)
}

pub fn unmarshal_u64(b: &[u8]) -> (r: Result<u64, Error>)
    ensures
        spec_unmarshal_u64(b@) matches Some(v) ==> r == Ok::<u64, Error>(v),
        spec_unmarshal_u64(b@) is None ==> (r matches Err(e)
            && e@ == ErrorV::ParseError(spec_decode_error_message())),
{
    if b.len() != 8 {
        return Err(decode_error());
    }
    Ok(u64_from_le_bytes(b))
}

/// Decoding inverts encoding for `u64`.
pub proof fn lemma_u64_round_trip(x: u64)
    ensures
        spec_unmarshal_u64(spec_marshal_u64(x)) == Some(x),
{
    lemma_auto_spec_u64_to_from_le_bytes();
}

/// Wire form of the unit value: no bytes at all. A zero-byte body is valid.
pub open spec fn spec_marshal_unit() -> Seq<u8> {
    Seq::<u8>::empty()
}

/// Unit decodes from exactly the empty buffer.
pub open spec fn spec_unmarshal_unit(b: Seq<u8>) -> Option<()> {
    if b.len() == 0 {
        Some(())
    } else {
        None
    }
}

pub fn marshal_unit() -> (r: Vec<u8>)
    ensures
        r@ == spec_marshal_unit(),
{
    let v: Vec<u8> = Vec::new();
    proof {
        assert(v@ =~= spec_marshal_unit());
    }
    v
}

pub fn unmarshal_unit(b: &[u8]) -> (r: Result<(), Error>)
    ensures
        spec_unmarshal_unit(b@) is Some ==> r is Ok,
        spec_unmarshal_unit(b@) is None ==> (r matches Err(e)
            && e@ == ErrorV::ParseError(spec_decode_error_message())),
{
    if b.len() != 0 {
        return Err(decode_error());
    }
    Ok(())
}

/// Wire form of a byte array: a `u64` length prefix, then the bytes.
pub open spec fn spec_marshal_bytes(x: Seq<u8>) -> Seq<u8>
    recommends
        x.len() <= u64::MAX,
{
    spec_u64_to_le_bytes(x.len() as u64) + x
}

/// The byte array a buffer decodes to; the length prefix must match exactly.
pub open spec fn spec_unmarshal_bytes(b: Seq<u8>) -> Option<Seq<u8>> {
    if b.len() >= 8 && b.len() - 8 == spec_u64_from_le_bytes(b.subrange(0, 8)) {
        Some(b.skip(8))
    } else {
        None
    }
}

pub fn marshal_bytes(x: &[u8]) -> (r: Vec<u8>)
    ensures
        r@ == spec_marshal_bytes(x@),
{
    let mut v = u64_to_le_bytes(x.len() as u64);
    let mut tail = vstd::slice::slice_to_vec(x);
    v.append(&mut tail);
    proof {
        assert(v@ =~= spec_marshal_bytes(x@));
    }
    v
}

pub fn unmarshal_bytes(b: &[u8]) -> (r: Result<Vec<u8>, Error>)
    ensures
        spec_unmarshal_bytes(b@) matches Some(v) ==> (r matches Ok(w) && w@ == v),
        spec_unmarshal_bytes(b@) is None ==> (r matches Err(e)
            && e@ == ErrorV::ParseError(spec_decode_error_message())),
{
    if b.len() < 8 {
        return Err(decode_error());
    }
    let n = u64_from_le_bytes(vstd::slice::slice_subrange(b, 0, 8));
    if (b.len() - 8) as u64 != n {
        return Err(decode_error());
    }
    let tail = vstd::slice::slice_subrange(b, 8, b.len());
    let v = vstd::slice::slice_to_vec(tail);
    proof {
        assert(v@ =~= b@.skip(8));
    }
    Ok(v)
}

/// Decoding inverts encoding for byte arrays.
pub proof fn lemma_bytes_round_trip(x: Seq<u8>)
    requires
        x.len() <= u64::MAX,
    ensures
        spec_unmarshal_bytes(spec_marshal_bytes(x)) == Some(x),
{
    lemma_auto_spec_u64_to_from_le_bytes();
    let b = spec_marshal_bytes(x);
    assert(b.subrange(0, 8) =~= spec_u64_to_le_bytes(x.len() as u64));
    assert(b.skip(8) =~= x);
}

/// Wire form of a string: a `u64` length prefix, then its UTF-8 bytes.
pub open spec fn spec_marshal_string(s: Seq<char>) -> Seq<u8>
    recommends
        encode_utf8(s).len() <= u64::MAX,
{
    spec_marshal_bytes(encode_utf8(s))
}

/// The string a buffer decodes to: the length prefix must match exactly and
/// the bytes must be valid UTF-8.
pub open spec fn spec_unmarshal_string(b: Seq<u8>) -> Option<Seq<char>> {
    match spec_unmarshal_bytes(b) {
        Some(raw) => if valid_utf8(raw) {
            Some(decode_utf8(raw))
        } else {
            None
        },
        None => None,
    }
}

pub fn marshal_string(s: &str) -> (r: Vec<u8>)
    ensures
        r@ == spec_marshal_string(s@),
{
    let raw = s.as_bytes_vec();
    marshal_bytes(raw.as_slice())
}

pub fn unmarshal_string(b: &[u8]) -> (r: Result<String, Error>)
    ensures
        spec_unmarshal_string(b@) matches Some(v) ==> (r matches Ok(s) && s@ == v),
        spec_unmarshal_string(b@) is None ==> (r matches Err(e)
            && e@ == ErrorV::ParseError(spec_decode_error_message())),
{
    let raw = match unmarshal_bytes(b) {
        Ok(raw) => raw,
        Err(e) => { return Err(e); },
    };
    match vec_to_string(raw) {
        Some(s) => Ok(s),
        None => Err(decode_error()),
    }
}

/// Decoding inverts encoding for strings.
pub proof fn lemma_string_round_trip(s: Seq<char>)
    requires
        encode_utf8(s).len() <= u64::MAX,
    ensures
        spec_unmarshal_string(spec_marshal_string(s)) == Some(s),
{
    lemma_bytes_round_trip(encode_utf8(s));
    encode_utf8_valid_utf8(s);
    encode_utf8_decode_utf8(s);
}

} // verus!
