//! Reading and writing single values of the wire format.
//!
//! The byte-level work is done by the `polyglot_rs` crate.  Each of its
//! functions that this library uses is reached through one private function
//! here whose contract says, in terms of `crate::wire`, what the call does;
//! those contracts are taken on trust.  The public functions of this module
//! are verified against them.  They add what the callers of this library
//! need on top: a reader never asks for a payload that the buffer does not
//! hold, and faults come back as this library's own `Fault`.
//!
//! A writer succeeds or fails with the writer underneath it.  Whether it
//! succeeds is given a name (`accepts_string` and its like), so that every
//! function that writes can say exactly when it succeeds; what is written on
//! success is stated in full, and a failure never harms what the buffer held.

use crate::wire::{
    begins_with, framed, parse_array, parse_bytes, parse_error, parse_i32, parse_i64, parse_map,
    parse_none, parse_string, parse_u32, tag_at, wire_array, wire_bytes, wire_error, wire_i32,
    wire_i64, wire_map, wire_string, Fault, KIND_BYTES, KIND_ERROR, KIND_STRING,
};
use polyglot_rs::Decoder;
use polyglot_rs::DecodingError;
use polyglot_rs::Encoder;
use polyglot_rs::EncodingError;
use polyglot_rs::Kind;
use std::io::Cursor;
use vstd::prelude::*;
use vstd::utf8::*;

verus! {

/// `polyglot_rs::DecodingError`, with its variants visible to the verifier.
#[verifier::external_type_specification]
pub struct ExDecodingError(DecodingError);

/// `polyglot_rs::EncodingError`, with its variant visible to the verifier.
#[verifier::external_type_specification]
pub struct ExEncodingError(EncodingError);

/// Why a value could not be written.
#[derive(Clone, Copy, Debug, PartialEq, Eq, Structural)]
pub enum EncodeError {
    /// The underlying writer refused the bytes.
    WriteFailed,
}

impl EncodeError {
    /// The description of the error.
    pub fn message(self) -> (text: &'static str)
        ensures
            text@ == "WriteFailed"@,
    {
        "WriteFailed"
    }
}

/// The fault that stands for a decoding error of `polyglot_rs`.
pub open spec fn fault_from(e: DecodingError) -> Fault {
    match e {
        DecodingError::InvalidNone => Fault::InvalidNone,
        DecodingError::InvalidArray => Fault::InvalidArray,
        DecodingError::InvalidMap => Fault::InvalidMap,
        DecodingError::InvalidBytes => Fault::InvalidBytes,
        DecodingError::InvalidString => Fault::InvalidString,
        DecodingError::InvalidError => Fault::InvalidError,
        DecodingError::InvalidBool => Fault::InvalidBool,
        DecodingError::InvalidU8 => Fault::InvalidU8,
        DecodingError::InvalidU16 => Fault::InvalidU16,
        DecodingError::InvalidU32 => Fault::InvalidU32,
        DecodingError::InvalidU64 => Fault::InvalidU64,
        DecodingError::InvalidI32 => Fault::InvalidI32,
        DecodingError::InvalidI64 => Fault::InvalidI64,
        DecodingError::InvalidF32 => Fault::InvalidF32,
        DecodingError::InvalidF64 => Fault::InvalidF64,
        DecodingError::InvalidEnum => Fault::InvalidEnum,
        DecodingError::InvalidStruct => Fault::InvalidStruct,
    }
}

fn fault_of(e: DecodingError) -> (fault: Fault)
    ensures
        fault == fault_from(e),
{
    match e {
        DecodingError::InvalidNone => Fault::InvalidNone,
        DecodingError::InvalidArray => Fault::InvalidArray,
        DecodingError::InvalidMap => Fault::InvalidMap,
        DecodingError::InvalidBytes => Fault::InvalidBytes,
        DecodingError::InvalidString => Fault::InvalidString,
        DecodingError::InvalidError => Fault::InvalidError,
        DecodingError::InvalidBool => Fault::InvalidBool,
        DecodingError::InvalidU8 => Fault::InvalidU8,
        DecodingError::InvalidU16 => Fault::InvalidU16,
        DecodingError::InvalidU32 => Fault::InvalidU32,
        DecodingError::InvalidU64 => Fault::InvalidU64,
        DecodingError::InvalidI32 => Fault::InvalidI32,
        DecodingError::InvalidI64 => Fault::InvalidI64,
        DecodingError::InvalidF32 => Fault::InvalidF32,
        DecodingError::InvalidF64 => Fault::InvalidF64,
        DecodingError::InvalidEnum => Fault::InvalidEnum,
        DecodingError::InvalidStruct => Fault::InvalidStruct,
    }
}

/// The error that stands for an encoding error of `polyglot_rs`.
pub open spec fn encode_error_from(e: EncodingError) -> EncodeError {
    match e {
        EncodingError::WriteFailed => EncodeError::WriteFailed,
    }
}

fn encode_error_of(e: EncodingError) -> (error: EncodeError)
    ensures
        error == encode_error_from(e),
{
    match e {
        EncodingError::WriteFailed => EncodeError::WriteFailed,
    }
}

/// Whether what a reader returned is what `parsed` says it finds.
pub open spec fn agrees<T, V>(
    got: Result<(T, usize), DecodingError>,
    value: spec_fn(T) -> V,
    parsed: Result<(V, int), Fault>,
) -> bool {
    match got {
        Ok((v, next)) => parsed == Ok::<(V, int), Fault>((value(v), next as int)),
        Err(e) => parsed == Err::<(V, int), Fault>(fault_from(e)),
    }
}

// ---------------------------------------------------------------------------
// Readers of polyglot_rs
// ---------------------------------------------------------------------------

/// `Decoder::decode_none` on a cursor over `bytes` that stands at `pos`.
/// Claims that it reports whether the byte there is the absent-value tag, and
/// leaves the cursor behind that byte if it is, where it was if not.
#[verifier::external_body]
fn polyglot_decode_none(bytes: &[u8], pos: usize) -> (r: (bool, usize))
    requires
        pos <= bytes@.len(),
    ensures
        (r.0, r.1 as int) == parse_none(bytes@, pos as int),
{
    let mut cursor = Cursor::new(bytes);
    cursor.set_position(pos as u64);
    let found = cursor.decode_none();
    (found, cursor.position() as usize)
}

/// `Decoder::decode_u32` on a cursor over `bytes` that stands at `pos`.
/// Claims that it gives the number and the end position that `parse_u32`
/// describes, and `InvalidU32` wherever `parse_u32` gives a fault.
#[verifier::external_body]
fn polyglot_decode_u32(bytes: &[u8], pos: usize) -> (r: Result<(u32, usize), DecodingError>)
    requires
        pos <= bytes@.len(),
    ensures
        agrees(r, |v: u32| v, parse_u32(bytes@, pos as int)),
{
    let mut cursor = Cursor::new(bytes);
    cursor.set_position(pos as u64);
    match cursor.decode_u32() {
        Ok(v) => Ok((v, cursor.position() as usize)),
        Err(e) => Err(e),
    }
}

/// `Decoder::decode_i32` on a cursor over `bytes` that stands at `pos`.
/// Claims that it gives the number and the end position that `parse_i32`
/// describes, and `InvalidI32` wherever `parse_i32` gives a fault.
#[verifier::external_body]
fn polyglot_decode_i32(bytes: &[u8], pos: usize) -> (r: Result<(i32, usize), DecodingError>)
    requires
        pos <= bytes@.len(),
    ensures
        agrees(r, |v: i32| v, parse_i32(bytes@, pos as int)),
{
    let mut cursor = Cursor::new(bytes);
    cursor.set_position(pos as u64);
    match cursor.decode_i32() {
        Ok(v) => Ok((v, cursor.position() as usize)),
        Err(e) => Err(e),
    }
}

/// `Decoder::decode_i64` on a cursor over `bytes` that stands at `pos`.
/// Claims that it gives the number and the end position that `parse_i64`
/// describes, and `InvalidI64` wherever `parse_i64` gives a fault.
#[verifier::external_body]
fn polyglot_decode_i64(bytes: &[u8], pos: usize) -> (r: Result<(i64, usize), DecodingError>)
    requires
        pos <= bytes@.len(),
    ensures
        agrees(r, |v: i64| v, parse_i64(bytes@, pos as int)),
{
    let mut cursor = Cursor::new(bytes);
    cursor.set_position(pos as u64);
    match cursor.decode_i64() {
        Ok(v) => Ok((v, cursor.position() as usize)),
        Err(e) => Err(e),
    }
}

/// `Decoder::decode_array` on a cursor over `bytes` that stands at `pos`,
/// asked for items of the kind that `Kind::from` makes of `item_kind`.  Claims
/// that it gives the count and the end position that `parse_array` describes,
/// and the fault that `parse_array` names otherwise.
#[verifier::external_body]
fn polyglot_decode_array(bytes: &[u8], pos: usize, item_kind: u8) -> (r: Result<
    (usize, usize),
    DecodingError,
>)
    requires
        pos <= bytes@.len(),
    ensures
        agrees(r, |n: usize| n as nat, parse_array(bytes@, pos as int, item_kind)),
{
    let mut cursor = Cursor::new(bytes);
    cursor.set_position(pos as u64);
    match cursor.decode_array(Kind::from(item_kind)) {
        Ok(n) => Ok((n, cursor.position() as usize)),
        Err(e) => Err(e),
    }
}

/// `Decoder::decode_map` on a cursor over `bytes` that stands at `pos`, asked
/// for keys and values of the kinds that `Kind::from` makes of the given
/// tags.  Claims that it gives the count and the end position that
/// `parse_map` describes, and the fault that `parse_map` names otherwise.
#[verifier::external_body]
fn polyglot_decode_map(bytes: &[u8], pos: usize, key_kind: u8, value_kind: u8) -> (r: Result<
    (usize, usize),
    DecodingError,
>)
    requires
        pos <= bytes@.len(),
    ensures
        agrees(r, |n: usize| n as nat, parse_map(bytes@, pos as int, key_kind, value_kind)),
{
    let mut cursor = Cursor::new(bytes);
    cursor.set_position(pos as u64);
    match cursor.decode_map(Kind::from(key_kind), Kind::from(value_kind)) {
        Ok(n) => Ok((n, cursor.position() as usize)),
        Err(e) => Err(e),
    }
}

/// `Decoder::decode_bytes` on a cursor over `bytes` that stands at `pos`.
/// It allocates room for the announced length before it looks whether the
/// buffer holds that much, so it is only called where `framed` holds.  Claims
/// that it then gives the payload and the position behind it.
#[verifier::external_body]
fn polyglot_decode_bytes(bytes: &[u8], pos: usize) -> (r: Result<(Vec<u8>, usize), DecodingError>)
    requires
        framed(bytes@, pos as int, KIND_BYTES),
    ensures
        agrees(r, |v: Vec<u8>| v@, parse_bytes(bytes@, pos as int)),
{
    let mut cursor = Cursor::new(bytes);
    cursor.set_position(pos as u64);
    match cursor.decode_bytes() {
        Ok(v) => Ok((v, cursor.position() as usize)),
        Err(e) => Err(e),
    }
}

/// `Decoder::decode_string` on a cursor over `bytes` that stands at `pos`.
/// It allocates room for the announced length before it looks whether the
/// buffer holds that much, so it is only called where `framed` holds.  Claims
/// that it then gives the text that the payload spells in UTF-8 and the
/// position behind it, or `InvalidString` if the payload is not UTF-8.
#[verifier::external_body]
fn polyglot_decode_string(bytes: &[u8], pos: usize) -> (r: Result<(String, usize), DecodingError>)
    requires
        framed(bytes@, pos as int, KIND_STRING),
    ensures
        agrees(r, |s: String| s@, parse_string(bytes@, pos as int)),
{
    let mut cursor = Cursor::new(bytes);
    cursor.set_position(pos as u64);
    match cursor.decode_string() {
        Ok(s) => Ok((s, cursor.position() as usize)),
        Err(e) => Err(e),
    }
}

/// `Decoder::decode_error` on a cursor over `bytes` that stands at `pos`,
/// with the error it yields turned into its message.  Like `decode_string` it
/// is only called on a payload that the buffer holds.  Claims that it gives
/// the message that the payload spells and the position behind it, or
/// `InvalidError` if the payload is not UTF-8.
#[verifier::external_body]
fn polyglot_decode_error(bytes: &[u8], pos: usize) -> (r: Result<(String, usize), DecodingError>)
    requires
        tag_at(bytes@, pos as int, KIND_ERROR),
        framed(bytes@, pos + 1, KIND_STRING),
    ensures
        agrees(r, |s: String| s@, parse_error(bytes@, pos as int)),
{
    let mut cursor = Cursor::new(bytes);
    cursor.set_position(pos as u64);
    match cursor.decode_error() {
        Ok(e) => Ok((e.to_string(), cursor.position() as usize)),
        Err(e) => Err(e),
    }
}

// ---------------------------------------------------------------------------
// Writers of polyglot_rs
// ---------------------------------------------------------------------------
//
// The writers of `polyglot_rs` fail where the cursor underneath refuses a
// write, and nowhere else.  When a cursor over a vector does that, the
// standard library does not say; it depends on nothing but the vector and
// what is written to it.  So whether a writer succeeds has a name here, one
// for each writer, and what it appends when it succeeds is stated.

/// Whether `Encoder::encode_string` succeeds for `text` on a cursor that
/// stands at the end of `buffer`.
pub uninterp spec fn accepts_string(buffer: Seq<u8>, text: Seq<char>) -> bool;

/// Whether `Encoder::encode_bytes` succeeds for `payload` on a cursor that
/// stands at the end of `buffer`.
pub uninterp spec fn accepts_bytes(buffer: Seq<u8>, payload: Seq<u8>) -> bool;

/// Whether `Encoder::encode_i32` succeeds for `v` on a cursor that stands at
/// the end of `buffer`.
pub uninterp spec fn accepts_i32(buffer: Seq<u8>, v: i32) -> bool;

/// Whether `Encoder::encode_i64` succeeds for `v` on a cursor that stands at
/// the end of `buffer`.
pub uninterp spec fn accepts_i64(buffer: Seq<u8>, v: i64) -> bool;

/// Whether `Encoder::encode_array` succeeds for `count` items of the kind
/// with tag `item_kind` on a cursor that stands at the end of `buffer`.
pub uninterp spec fn accepts_array(buffer: Seq<u8>, count: nat, item_kind: u8) -> bool;

/// Whether `Encoder::encode_map` succeeds for `count` pairs of the kinds with
/// the given tags on a cursor that stands at the end of `buffer`.
pub uninterp spec fn accepts_map(buffer: Seq<u8>, count: nat, key_kind: u8, value_kind: u8) -> bool;

/// Whether `Encoder::encode_error` succeeds for an error with the message
/// `message` on a cursor that stands at the end of `buffer`.
pub uninterp spec fn accepts_error(buffer: Seq<u8>, message: Seq<char>) -> bool;

/// `Encoder::encode_string` on a cursor that stands at the end of `out`.
/// Claims that it succeeds where `accepts_string` says so, and that `out` has
/// then grown by `wire_string` of the text; and that, whatever it returns,
/// `out` still begins with what it held.
#[verifier::external_body]
fn polyglot_encode_string(out: &mut Vec<u8>, text: &String) -> (r: Result<(), EncodingError>)
    ensures
        r is Ok <==> accepts_string(old(out)@, text@),
        r is Ok ==> final(out)@ == old(out)@ + wire_string(text@),
        begins_with(final(out)@, old(out)@),
{
    let mut cursor = Cursor::new(std::mem::take(out));
    cursor.set_position(cursor.get_ref().len() as u64);
    let r = match (&mut cursor).encode_string(text) {
        Ok(_) => Ok(()),
        Err(e) => Err(e),
    };
    *out = cursor.into_inner();
    r
}

/// `Encoder::encode_bytes` on a cursor that stands at the end of `out`.
/// Claims that it succeeds where `accepts_bytes` says so, and that `out` has
/// then grown by `wire_bytes` of the payload; and that, whatever it returns,
/// `out` still begins with what it held.
#[verifier::external_body]
fn polyglot_encode_bytes(out: &mut Vec<u8>, payload: &[u8]) -> (r: Result<(), EncodingError>)
    ensures
        r is Ok <==> accepts_bytes(old(out)@, payload@),
        r is Ok ==> final(out)@ == old(out)@ + wire_bytes(payload@),
        begins_with(final(out)@, old(out)@),
{
    let mut cursor = Cursor::new(std::mem::take(out));
    cursor.set_position(cursor.get_ref().len() as u64);
    let r = match (&mut cursor).encode_bytes(payload) {
        Ok(_) => Ok(()),
        Err(e) => Err(e),
    };
    *out = cursor.into_inner();
    r
}

/// `Encoder::encode_i32` on a cursor that stands at the end of `out`.
/// Claims that it succeeds where `accepts_i32` says so, and that `out` has
/// then grown by `wire_i32` of the number; and that, whatever it returns,
/// `out` still begins with what it held.
#[verifier::external_body]
fn polyglot_encode_i32(out: &mut Vec<u8>, v: i32) -> (r: Result<(), EncodingError>)
    ensures
        r is Ok <==> accepts_i32(old(out)@, v),
        r is Ok ==> final(out)@ == old(out)@ + wire_i32(v),
        begins_with(final(out)@, old(out)@),
{
    let mut cursor = Cursor::new(std::mem::take(out));
    cursor.set_position(cursor.get_ref().len() as u64);
    let r = match (&mut cursor).encode_i32(v) {
        Ok(_) => Ok(()),
        Err(e) => Err(e),
    };
    *out = cursor.into_inner();
    r
}

/// `Encoder::encode_i64` on a cursor that stands at the end of `out`.
/// Claims that it succeeds where `accepts_i64` says so, and that `out` has
/// then grown by `wire_i64` of the number; and that, whatever it returns,
/// `out` still begins with what it held.
#[verifier::external_body]
fn polyglot_encode_i64(out: &mut Vec<u8>, v: i64) -> (r: Result<(), EncodingError>)
    ensures
        r is Ok <==> accepts_i64(old(out)@, v),
        r is Ok ==> final(out)@ == old(out)@ + wire_i64(v),
        begins_with(final(out)@, old(out)@),
{
    let mut cursor = Cursor::new(std::mem::take(out));
    cursor.set_position(cursor.get_ref().len() as u64);
    let r = match (&mut cursor).encode_i64(v) {
        Ok(_) => Ok(()),
        Err(e) => Err(e),
    };
    *out = cursor.into_inner();
    r
}

/// `Encoder::encode_array` on a cursor that stands at the end of `out`, for
/// items of the kind that `Kind::from` makes of `item_kind`.  Claims that it
/// succeeds where `accepts_array` says so, and that `out` has then grown by
/// `wire_array` of the count and the tag; and that, whatever it returns,
/// `out` still begins with what it held.
#[verifier::external_body]
fn polyglot_encode_array(out: &mut Vec<u8>, count: usize, item_kind: u8) -> (r: Result<
    (),
    EncodingError,
>)
    ensures
        r is Ok <==> accepts_array(old(out)@, count as nat, item_kind),
        r is Ok ==> final(out)@ == old(out)@ + wire_array(count as nat, item_kind),
        begins_with(final(out)@, old(out)@),
{
    let mut cursor = Cursor::new(std::mem::take(out));
    cursor.set_position(cursor.get_ref().len() as u64);
    let r = match (&mut cursor).encode_array(count, Kind::from(item_kind)) {
        Ok(_) => Ok(()),
        Err(e) => Err(e),
    };
    *out = cursor.into_inner();
    r
}

/// `Encoder::encode_map` on a cursor that stands at the end of `out`, for
/// keys and values of the kinds that `Kind::from` makes of the given tags.
/// Claims that it succeeds where `accepts_map` says so, and that `out` has
/// then grown by `wire_map` of the count and the tags; and that, whatever it
/// returns, `out` still begins with what it held.
#[verifier::external_body]
fn polyglot_encode_map(out: &mut Vec<u8>, count: usize, key_kind: u8, value_kind: u8) -> (r:
    Result<(), EncodingError>)
    ensures
        r is Ok <==> accepts_map(old(out)@, count as nat, key_kind, value_kind),
        r is Ok ==> final(out)@ == old(out)@ + wire_map(count as nat, key_kind, value_kind),
        begins_with(final(out)@, old(out)@),
{
    let mut cursor = Cursor::new(std::mem::take(out));
    cursor.set_position(cursor.get_ref().len() as u64);
    let kinds = (Kind::from(key_kind), Kind::from(value_kind));
    let r = match (&mut cursor).encode_map(count, kinds.0, kinds.1) {
        Ok(_) => Ok(()),
        Err(e) => Err(e),
    };
    *out = cursor.into_inner();
    r
}

/// `Encoder::encode_error` on a cursor that stands at the end of `out`, with
/// the message boxed as an error.  Claims that it succeeds where
/// `accepts_error` says so, and that `out` has then grown by `wire_error` of
/// the message; and that, whatever it returns, `out` still begins with what
/// it held.
#[verifier::external_body]
fn polyglot_encode_error(out: &mut Vec<u8>, message: &str) -> (r: Result<(), EncodingError>)
    ensures
        r is Ok <==> accepts_error(old(out)@, message@),
        r is Ok ==> final(out)@ == old(out)@ + wire_error(message@),
        begins_with(final(out)@, old(out)@),
{
    let mut cursor = Cursor::new(std::mem::take(out));
    cursor.set_position(cursor.get_ref().len() as u64);
    let r = match (&mut cursor).encode_error(message.to_owned().into()) {
        Ok(_) => Ok(()),
        Err(e) => Err(e),
    };
    *out = cursor.into_inner();
    r
}

// ---------------------------------------------------------------------------
// The verified readers
// ---------------------------------------------------------------------------

/// Whether what a verified reader returned is what `parsed` says it finds.
pub open spec fn found<T, V>(
    got: Result<(T, usize), Fault>,
    value: spec_fn(T) -> V,
    parsed: Result<(V, int), Fault>,
) -> bool {
    match got {
        Ok((v, next)) => parsed == Ok::<(V, int), Fault>((value(v), next as int)),
        Err(fault) => parsed == Err::<(V, int), Fault>(fault),
    }
}

/// Looks for the absent-value marker at `pos`.  Returns whether it is there
/// and where the reader stands afterwards.  At or behind the end of the
/// buffer there is no marker.
pub fn read_none(bytes: &[u8], pos: usize) -> (r: (bool, usize))
    ensures
        (r.0, r.1 as int) == parse_none(bytes@, pos as int),
{
    if pos < bytes.len() {
        polyglot_decode_none(bytes, pos)
    } else {
        (false, pos)
    }
}

/// Reads a `u32` at `pos`.
pub fn read_u32(bytes: &[u8], pos: usize) -> (r: Result<(u32, usize), Fault>)
    ensures
        found(r, |v: u32| v, parse_u32(bytes@, pos as int)),
{
    if pos >= bytes.len() {
        return Err(Fault::InvalidU32);
    }
    match polyglot_decode_u32(bytes, pos) {
        Ok(got) => Ok(got),
        Err(e) => Err(fault_of(e)),
    }
}

/// Reads an `i32` at `pos`.
pub fn read_i32(bytes: &[u8], pos: usize) -> (r: Result<(i32, usize), Fault>)
    ensures
        found(r, |v: i32| v, parse_i32(bytes@, pos as int)),
{
    if pos >= bytes.len() {
        return Err(Fault::InvalidI32);
    }
    match polyglot_decode_i32(bytes, pos) {
        Ok(got) => Ok(got),
        Err(e) => Err(fault_of(e)),
    }
}

/// Reads an `i64` at `pos`.
pub fn read_i64(bytes: &[u8], pos: usize) -> (r: Result<(i64, usize), Fault>)
    ensures
        found(r, |v: i64| v, parse_i64(bytes@, pos as int)),
{
    if pos >= bytes.len() {
        return Err(Fault::InvalidI64);
    }
    match polyglot_decode_i64(bytes, pos) {
        Ok(got) => Ok(got),
        Err(e) => Err(fault_of(e)),
    }
}

/// Reads the header of an array of items of the kind with tag `item_kind`
/// at `pos` and returns the count it announces.
pub fn read_array(bytes: &[u8], pos: usize, item_kind: u8) -> (r: Result<(usize, usize), Fault>)
    ensures
        found(r, |n: usize| n as nat, parse_array(bytes@, pos as int, item_kind)),
{
    if pos >= bytes.len() {
        return Err(Fault::InvalidArray);
    }
    match polyglot_decode_array(bytes, pos, item_kind) {
        Ok(got) => Ok(got),
        Err(e) => Err(fault_of(e)),
    }
}

/// Reads the header of a map with the given kinds at `pos` and returns the
/// count of pairs it announces.
pub fn read_map(bytes: &[u8], pos: usize, key_kind: u8, value_kind: u8) -> (r: Result<
    (usize, usize),
    Fault,
>)
    ensures
        found(r, |n: usize| n as nat, parse_map(bytes@, pos as int, key_kind, value_kind)),
{
    if pos >= bytes.len() {
        return Err(Fault::InvalidMap);
    }
    match polyglot_decode_map(bytes, pos, key_kind, value_kind) {
        Ok(got) => Ok(got),
        Err(e) => Err(fault_of(e)),
    }
}

/// Checks that a length-prefixed payload is announced at `pos` under `tag`
/// and lies inside the buffer.  On failure returns the fault that the reader
/// of such a payload reports: `short` where the tag is missing or the payload
/// is cut off, `InvalidU32` where the length cannot be read.
fn check_frame(bytes: &[u8], pos: usize, tag: u8, short: Fault) -> (r: Result<(), Fault>)
    ensures
        r is Ok <==> framed(bytes@, pos as int, tag),
        r matches Err(fault) ==> fault == (if !tag_at(bytes@, pos as int, tag) {
            short
        } else if parse_u32(bytes@, pos + 1) is Err {
            Fault::InvalidU32
        } else {
            short
        }),
{
    if pos >= bytes.len() || bytes[pos] != tag {
        return Err(short);
    }
    match read_u32(bytes, pos + 1) {
        Err(_) => Err(Fault::InvalidU32),
        Ok((size, start)) => {
            if start > bytes.len() || size as usize > bytes.len() - start {
                Err(short)
            } else {
                Ok(())
            }
        },
    }
}

/// Reads a byte string at `pos`.
pub fn read_bytes(bytes: &[u8], pos: usize) -> (r: Result<(Vec<u8>, usize), Fault>)
    ensures
        found(r, |v: Vec<u8>| v@, parse_bytes(bytes@, pos as int)),
{
    match check_frame(bytes, pos, KIND_BYTES, Fault::InvalidBytes) {
        Err(fault) => Err(fault),
        Ok(()) => match polyglot_decode_bytes(bytes, pos) {
            Ok(got) => Ok(got),
            Err(e) => Err(fault_of(e)),
        },
    }
}

/// Reads a string at `pos`.
pub fn read_string(bytes: &[u8], pos: usize) -> (r: Result<(String, usize), Fault>)
    ensures
        found(r, |s: String| s@, parse_string(bytes@, pos as int)),
{
    match check_frame(bytes, pos, KIND_STRING, Fault::InvalidString) {
        Err(fault) => Err(fault),
        Ok(()) => match polyglot_decode_string(bytes, pos) {
            Ok(got) => Ok(got),
            Err(e) => Err(fault_of(e)),
        },
    }
}

/// Reads an error record at `pos` and returns its message.
pub fn read_error(bytes: &[u8], pos: usize) -> (r: Result<(String, usize), Fault>)
    ensures
        found(r, |s: String| s@, parse_error(bytes@, pos as int)),
{
    if pos >= bytes.len() || bytes.len() - pos < 2 || bytes[pos] != KIND_ERROR || bytes[pos + 1]
        != KIND_STRING {
        return Err(Fault::InvalidError);
    }
    match check_frame(bytes, pos + 1, KIND_STRING, Fault::InvalidError) {
        Err(fault) => Err(fault),
        Ok(()) => match polyglot_decode_error(bytes, pos) {
            Ok(got) => Ok(got),
            Err(e) => Err(fault_of(e)),
        },
    }
}

// ---------------------------------------------------------------------------
// The verified writers
// ---------------------------------------------------------------------------

/// Appends a string to `out`.  Fails where the writer underneath does.
pub fn write_string(out: &mut Vec<u8>, text: &String) -> (r: Result<(), EncodeError>)
    ensures
        r is Ok <==> accepts_string(old(out)@, text@),
        r is Ok ==> final(out)@ == old(out)@ + wire_string(text@),
        begins_with(final(out)@, old(out)@),
{
    match polyglot_encode_string(out, text) {
        Ok(()) => Ok(()),
        Err(e) => Err(encode_error_of(e)),
    }
}

/// Appends a byte string to `out`.  Fails where the writer underneath does.
pub fn write_bytes(out: &mut Vec<u8>, payload: &[u8]) -> (r: Result<(), EncodeError>)
    ensures
        r is Ok <==> accepts_bytes(old(out)@, payload@),
        r is Ok ==> final(out)@ == old(out)@ + wire_bytes(payload@),
        begins_with(final(out)@, old(out)@),
{
    match polyglot_encode_bytes(out, payload) {
        Ok(()) => Ok(()),
        Err(e) => Err(encode_error_of(e)),
    }
}

/// Appends an `i32` to `out`.  Fails where the writer underneath does.
pub fn write_i32(out: &mut Vec<u8>, v: i32) -> (r: Result<(), EncodeError>)
    ensures
        r is Ok <==> accepts_i32(old(out)@, v),
        r is Ok ==> final(out)@ == old(out)@ + wire_i32(v),
        begins_with(final(out)@, old(out)@),
{
    match polyglot_encode_i32(out, v) {
        Ok(()) => Ok(()),
        Err(e) => Err(encode_error_of(e)),
    }
}

/// Appends an `i64` to `out`.  Fails where the writer underneath does.
pub fn write_i64(out: &mut Vec<u8>, v: i64) -> (r: Result<(), EncodeError>)
    ensures
        r is Ok <==> accepts_i64(old(out)@, v),
        r is Ok ==> final(out)@ == old(out)@ + wire_i64(v),
        begins_with(final(out)@, old(out)@),
{
    match polyglot_encode_i64(out, v) {
        Ok(()) => Ok(()),
        Err(e) => Err(encode_error_of(e)),
    }
}

/// Appends the header of an array of `count` items of the kind with tag
/// `item_kind`.  Fails where the writer underneath does.
pub fn write_array(out: &mut Vec<u8>, count: usize, item_kind: u8) -> (r: Result<(), EncodeError>)
    ensures
        r is Ok <==> accepts_array(old(out)@, count as nat, item_kind),
        r is Ok ==> final(out)@ == old(out)@ + wire_array(count as nat, item_kind),
        begins_with(final(out)@, old(out)@),
{
    match polyglot_encode_array(out, count, item_kind) {
        Ok(()) => Ok(()),
        Err(e) => Err(encode_error_of(e)),
    }
}

/// Appends the header of a map of `count` pairs with the given kinds.  Fails
/// where the writer underneath does.
pub fn write_map(out: &mut Vec<u8>, count: usize, key_kind: u8, value_kind: u8) -> (r: Result<
    (),
    EncodeError,
>)
    ensures
        r is Ok <==> accepts_map(old(out)@, count as nat, key_kind, value_kind),
        r is Ok ==> final(out)@ == old(out)@ + wire_map(count as nat, key_kind, value_kind),
        begins_with(final(out)@, old(out)@),
{
    match polyglot_encode_map(out, count, key_kind, value_kind) {
        Ok(()) => Ok(()),
        Err(e) => Err(encode_error_of(e)),
    }
}

/// Appends an error record with the given message.  Fails where the writer
/// underneath does.
pub fn write_error(out: &mut Vec<u8>, message: &str) -> (r: Result<(), EncodeError>)
    ensures
        r is Ok <==> accepts_error(old(out)@, message@),
        r is Ok ==> final(out)@ == old(out)@ + wire_error(message@),
        begins_with(final(out)@, old(out)@),
{
    match polyglot_encode_error(out, message) {
        Ok(()) => Ok(()),
        Err(e) => Err(encode_error_of(e)),
    }
}

} // verus!
