//! The wire format, as mathematics.
//!
//! Every value on the wire starts with a one-byte kind tag.  Integers follow
//! their tag as base-128 digits, least significant first, every digit but the
//! last with its top bit set; signed integers are first folded onto the
//! naturals so that small magnitudes stay short.  Byte strings and text carry
//! a `u32` length in front of their payload.  Arrays and maps are announced
//! by a header that names the kinds of their items and their count; the items
//! follow the header.
//!
//! `wire_*` functions give the bytes that stand for a value.  `parse_*`
//! functions say what a reader finds at a position of a buffer: the value and
//! the position behind it, or the fault that stops it.  Readers are lenient
//! where the format allows it (digits may be padded, the last digit of a
//! full-length integer may carry bits that do not fit), so parsing is not the
//! inverse of writing in both directions; `crate::wire_proofs` shows that it
//! is in the direction that matters.

use vstd::prelude::*;
use vstd::utf8::*;

verus! {

// The tags of the kinds that this library reads and writes.
pub const KIND_NONE: u8 = 0x00;
pub const KIND_ARRAY: u8 = 0x01;
pub const KIND_MAP: u8 = 0x02;
pub const KIND_ANY: u8 = 0x03;
pub const KIND_BYTES: u8 = 0x04;
pub const KIND_STRING: u8 = 0x05;
pub const KIND_ERROR: u8 = 0x06;
pub const KIND_U32: u8 = 0x0a;
pub const KIND_I32: u8 = 0x0c;
pub const KIND_I64: u8 = 0x0d;

/// The highest tag that stands for a kind.
pub const KIND_MAX: u8 = 0x0f;

/// The tag of the unknown kind.
pub const KIND_UNKNOWN: u8 = 0x10;

/// Why a reader gave up.  Mostly the name says what the reader was reading
/// when the bytes ran out or did not fit; the `parse_*` functions say exactly
/// which fault comes when.
#[derive(Clone, Copy, Debug, PartialEq, Eq, Structural)]
pub enum Fault {
    InvalidNone,
    InvalidArray,
    InvalidMap,
    InvalidBytes,
    InvalidString,
    InvalidError,
    InvalidBool,
    InvalidU8,
    InvalidU16,
    InvalidU32,
    InvalidU64,
    InvalidI32,
    InvalidI64,
    InvalidF32,
    InvalidF64,
    InvalidEnum,
    InvalidStruct,
}

/// The name of a fault, as it is shown to people.
pub open spec fn fault_name(fault: Fault) -> Seq<char> {
    match fault {
        Fault::InvalidNone => "InvalidNone"@,
        Fault::InvalidArray => "InvalidArray"@,
        Fault::InvalidMap => "InvalidMap"@,
        Fault::InvalidBytes => "InvalidBytes"@,
        Fault::InvalidString => "InvalidString"@,
        Fault::InvalidError => "InvalidError"@,
        Fault::InvalidBool => "InvalidBool"@,
        Fault::InvalidU8 => "InvalidU8"@,
        Fault::InvalidU16 => "InvalidU16"@,
        Fault::InvalidU32 => "InvalidU32"@,
        Fault::InvalidU64 => "InvalidU64"@,
        Fault::InvalidI32 => "InvalidI32"@,
        Fault::InvalidI64 => "InvalidI64"@,
        Fault::InvalidF32 => "InvalidF32"@,
        Fault::InvalidF64 => "InvalidF64"@,
        Fault::InvalidEnum => "InvalidEnum"@,
        Fault::InvalidStruct => "InvalidStruct"@,
    }
}

impl Fault {
    /// The name of the fault.
    pub fn name(self) -> (name: &'static str)
        ensures
            name@ == fault_name(self),
    {
        match self {
            Fault::InvalidNone => "InvalidNone",
            Fault::InvalidArray => "InvalidArray",
            Fault::InvalidMap => "InvalidMap",
            Fault::InvalidBytes => "InvalidBytes",
            Fault::InvalidString => "InvalidString",
            Fault::InvalidError => "InvalidError",
            Fault::InvalidBool => "InvalidBool",
            Fault::InvalidU8 => "InvalidU8",
            Fault::InvalidU16 => "InvalidU16",
            Fault::InvalidU32 => "InvalidU32",
            Fault::InvalidU64 => "InvalidU64",
            Fault::InvalidI32 => "InvalidI32",
            Fault::InvalidI64 => "InvalidI64",
            Fault::InvalidF32 => "InvalidF32",
            Fault::InvalidF64 => "InvalidF64",
            Fault::InvalidEnum => "InvalidEnum",
            Fault::InvalidStruct => "InvalidStruct",
        }
    }
}

/// The most digits a reader accepts for a 32-bit integer.
pub open spec fn digits32() -> nat {
    5
}

/// The most digits a reader accepts for a 64-bit integer.
pub open spec fn digits64() -> nat {
    10
}

/// The base-128 digits of `n`, least significant first, every digit but the
/// last with its top bit set.
pub open spec fn varint(n: nat) -> Seq<u8>
    decreases n,
{
    if n < 128 {
        seq![n as u8]
    } else {
        seq![(n % 128 + 128) as u8] + varint(n / 128)
    }
}

/// Folds the integers onto the naturals: 0, -1, 1, -2, 2, ... become
/// 0, 1, 2, 3, 4, ...
pub open spec fn zigzag(v: int) -> nat {
    if v >= 0 {
        (2 * v) as nat
    } else {
        (-2 * v - 1) as nat
    }
}

/// The inverse of `zigzag`.
pub open spec fn unzigzag(u: nat) -> int {
    if u % 2 == 0 {
        u as int / 2
    } else {
        -(u as int / 2) - 1
    }
}

/// The tag under which a kind is written and looked for.  A number that is
/// the tag of no kind stands for the unknown kind.
pub open spec fn kind_tag(tag: u8) -> u8 {
    if tag <= KIND_MAX {
        tag
    } else {
        KIND_UNKNOWN
    }
}

/// A length as the wire carries it: its low 32 bits.
pub open spec fn length_prefix(n: nat) -> u32 {
    (n % 0x1_0000_0000) as u32
}

pub open spec fn wire_none() -> Seq<u8> {
    seq![KIND_NONE]
}

pub open spec fn wire_u32(v: u32) -> Seq<u8> {
    seq![KIND_U32] + varint(v as nat)
}

pub open spec fn wire_i32(v: i32) -> Seq<u8> {
    seq![KIND_I32] + varint(zigzag(v as int))
}

pub open spec fn wire_i64(v: i64) -> Seq<u8> {
    seq![KIND_I64] + varint(zigzag(v as int))
}

pub open spec fn wire_bytes(payload: Seq<u8>) -> Seq<u8> {
    seq![KIND_BYTES] + wire_u32(length_prefix(payload.len())) + payload
}

pub open spec fn wire_string(text: Seq<char>) -> Seq<u8> {
    seq![KIND_STRING] + wire_u32(length_prefix(encode_utf8(text).len())) + encode_utf8(text)
}

/// An error record: the error tag in front of the message as a string.
pub open spec fn wire_error(message: Seq<char>) -> Seq<u8> {
    seq![KIND_ERROR] + wire_string(message)
}

/// The header of an array of `count` items of kind `item_kind`.
pub open spec fn wire_array(count: nat, item_kind: u8) -> Seq<u8> {
    seq![KIND_ARRAY, kind_tag(item_kind)] + wire_u32(length_prefix(count))
}

/// The header of a map of `count` pairs.
pub open spec fn wire_map(count: nat, key_kind: u8, value_kind: u8) -> Seq<u8> {
    seq![KIND_MAP, kind_tag(key_kind), kind_tag(value_kind)] + wire_u32(length_prefix(count))
}

/// Whether `whole` begins with `part`.
pub open spec fn begins_with(whole: Seq<u8>, part: Seq<u8>) -> bool {
    &&& part.len() <= whole.len()
    &&& forall|i: int| 0 <= i < part.len() ==> whole[i] == part[i]
}

/// Whether the byte at `pos` exists and is `tag`.
pub open spec fn tag_at(bytes: Seq<u8>, pos: int, tag: u8) -> bool {
    0 <= pos < bytes.len() && bytes[pos] == tag
}

/// Reads base-128 digits from `pos`, at most `limit` of them.  Gives the
/// number they spell, not yet cut to any width, and the position behind the
/// last digit.
pub open spec fn parse_varint(bytes: Seq<u8>, pos: int, limit: nat) -> Option<(nat, int)>
    decreases limit,
{
    if limit == 0 || !(0 <= pos < bytes.len()) {
        None
    } else if bytes[pos] < 128 {
        Some((bytes[pos] as nat, pos + 1))
    } else {
        match parse_varint(bytes, pos + 1, (limit - 1) as nat) {
            Some((high, next)) => Some(((bytes[pos] - 128 + 128 * high) as nat, next)),
            None => None,
        }
    }
}

/// The absent-value marker: present at `pos` or not.  Behind a marker the
/// reader stands one byte further; without one it has not moved.
pub open spec fn parse_none(bytes: Seq<u8>, pos: int) -> (bool, int) {
    if tag_at(bytes, pos, KIND_NONE) {
        (true, pos + 1)
    } else {
        (false, pos)
    }
}

pub open spec fn parse_u32(bytes: Seq<u8>, pos: int) -> Result<(u32, int), Fault> {
    if tag_at(bytes, pos, KIND_U32) {
        match parse_varint(bytes, pos + 1, digits32()) {
            Some((raw, next)) => Ok(((raw % 0x1_0000_0000) as u32, next)),
            None => Err(Fault::InvalidU32),
        }
    } else {
        Err(Fault::InvalidU32)
    }
}

pub open spec fn parse_i32(bytes: Seq<u8>, pos: int) -> Result<(i32, int), Fault> {
    if tag_at(bytes, pos, KIND_I32) {
        match parse_varint(bytes, pos + 1, digits32()) {
            Some((raw, next)) => Ok((unzigzag(raw % 0x1_0000_0000) as i32, next)),
            None => Err(Fault::InvalidI32),
        }
    } else {
        Err(Fault::InvalidI32)
    }
}

pub open spec fn parse_i64(bytes: Seq<u8>, pos: int) -> Result<(i64, int), Fault> {
    if tag_at(bytes, pos, KIND_I64) {
        match parse_varint(bytes, pos + 1, digits64()) {
            Some((raw, next)) => Ok((unzigzag(raw % 0x1_0000_0000_0000_0000) as i64, next)),
            None => Err(Fault::InvalidI64),
        }
    } else {
        Err(Fault::InvalidI64)
    }
}

/// An array header for items of kind `item_kind`: the count it announces.
pub open spec fn parse_array(bytes: Seq<u8>, pos: int, item_kind: u8) -> Result<(nat, int), Fault> {
    if !(0 <= pos && pos + 2 <= bytes.len()) {
        Err(Fault::InvalidArray)
    } else if bytes[pos] == KIND_ARRAY && bytes[pos + 1] == kind_tag(item_kind) {
        match parse_u32(bytes, pos + 2) {
            Ok((count, next)) => Ok((count as nat, next)),
            Err(fault) => Err(fault),
        }
    } else {
        Err(Fault::InvalidU32)
    }
}

/// A map header for the given kinds: the count of pairs it announces.
pub open spec fn parse_map(bytes: Seq<u8>, pos: int, key_kind: u8, value_kind: u8) -> Result<
    (nat, int),
    Fault,
> {
    if !(0 <= pos && pos + 3 <= bytes.len()) {
        Err(Fault::InvalidMap)
    } else if bytes[pos] == KIND_MAP && bytes[pos + 1] == kind_tag(key_kind) && bytes[pos + 2]
        == kind_tag(value_kind) {
        match parse_u32(bytes, pos + 3) {
            Ok((count, next)) => Ok((count as nat, next)),
            Err(fault) => Err(fault),
        }
    } else {
        Err(Fault::InvalidMap)
    }
}

/// Whether a length-prefixed payload is announced at `pos` under `tag` and
/// lies wholly inside the buffer.
pub open spec fn framed(bytes: Seq<u8>, pos: int, tag: u8) -> bool {
    &&& tag_at(bytes, pos, tag)
    &&& parse_u32(bytes, pos + 1) matches Ok((size, start))
    &&& start + size <= bytes.len()
}

pub open spec fn parse_bytes(bytes: Seq<u8>, pos: int) -> Result<(Seq<u8>, int), Fault> {
    if !tag_at(bytes, pos, KIND_BYTES) {
        Err(Fault::InvalidBytes)
    } else {
        match parse_u32(bytes, pos + 1) {
            Err(fault) => Err(fault),
            Ok((size, start)) => if start + size > bytes.len() {
                Err(Fault::InvalidBytes)
            } else {
                Ok((bytes.subrange(start, start + size), start + size))
            },
        }
    }
}

pub open spec fn parse_string(bytes: Seq<u8>, pos: int) -> Result<(Seq<char>, int), Fault> {
    if !tag_at(bytes, pos, KIND_STRING) {
        Err(Fault::InvalidString)
    } else {
        match parse_u32(bytes, pos + 1) {
            Err(fault) => Err(fault),
            Ok((size, start)) => if start + size > bytes.len() || !valid_utf8(
                bytes.subrange(start, start + size),
            ) {
                Err(Fault::InvalidString)
            } else {
                Ok((decode_utf8(bytes.subrange(start, start + size)), start + size))
            },
        }
    }
}

/// An error record at `pos`: its message.
pub open spec fn parse_error(bytes: Seq<u8>, pos: int) -> Result<(Seq<char>, int), Fault> {
    if !(0 <= pos && pos + 2 <= bytes.len()) {
        Err(Fault::InvalidError)
    } else if bytes[pos] == KIND_ERROR && bytes[pos + 1] == KIND_STRING {
        match parse_u32(bytes, pos + 2) {
            Err(fault) => Err(fault),
            Ok((size, start)) => if start + size > bytes.len() || !valid_utf8(
                bytes.subrange(start, start + size),
            ) {
                Err(Fault::InvalidError)
            } else {
                Ok((decode_utf8(bytes.subrange(start, start + size)), start + size))
            },
        }
    } else {
        Err(Fault::InvalidError)
    }
}

} // verus!
