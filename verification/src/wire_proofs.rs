//! What is written can be read back.
//!
//! For each kind of value, the lemma here says: where the bytes that
//! `crate::wire` writes for a value stand in a buffer, the reader finds that
//! value there and stops right behind it.  Lengths and counts travel as
//! `u32`, so a payload has to be short enough for its length to fit.

use crate::wire::{
    digits32, digits64, kind_tag, length_prefix, parse_array, parse_bytes, parse_error, parse_i32,
    parse_i64, parse_map, parse_none, parse_string, parse_u32, parse_varint,
    varint, wire_array, wire_bytes, wire_error, wire_i32, wire_i64, wire_map, wire_string,
    wire_u32, zigzag, Fault, KIND_ARRAY, KIND_BYTES, KIND_ERROR, KIND_I32, KIND_I64, KIND_MAP,
    KIND_STRING, KIND_U32,
};
use vstd::prelude::*;
use vstd::utf8::*;

verus! {

/// Whether `part` stands in `bytes` at `pos`.
pub open spec fn occurs_at(bytes: Seq<u8>, pos: int, part: Seq<u8>) -> bool {
    &&& 0 <= pos
    &&& pos + part.len() <= bytes.len()
    &&& bytes.subrange(pos, pos + part.len()) == part
}

/// A length that fits the `u32` in front of a payload.
pub open spec fn fits(len: nat) -> bool {
    len <= u32::MAX
}

/// Where two parts stand one behind the other, each of them stands.
pub proof fn lemma_occurs_split(bytes: Seq<u8>, pos: int, first: Seq<u8>, second: Seq<u8>)
    requires
        occurs_at(bytes, pos, first + second),
    ensures
        occurs_at(bytes, pos, first),
        occurs_at(bytes, pos + first.len(), second),
{
    let whole = bytes.subrange(pos, pos + (first + second).len());
    assert(bytes.subrange(pos, pos + first.len()) =~= whole.subrange(0, first.len() as int));
    assert(whole.subrange(0, first.len() as int) =~= first);
    assert(bytes.subrange(pos + first.len(), pos + first.len() + second.len())
        =~= whole.subrange(first.len() as int, whole.len() as int));
    assert(whole.subrange(first.len() as int, whole.len() as int) =~= second);
}

/// The byte at the start of a part that stands in a buffer.
pub proof fn lemma_occurs_first(bytes: Seq<u8>, pos: int, part: Seq<u8>)
    requires
        occurs_at(bytes, pos, part),
        part.len() > 0,
    ensures
        0 <= pos < bytes.len(),
        bytes[pos] == part[0],
{
    assert(bytes.subrange(pos, pos + part.len())[0] == part[0]);
}

/// A whole buffer stands at its own start.
pub proof fn lemma_occurs_whole(bytes: Seq<u8>)
    ensures
        occurs_at(bytes, 0, bytes),
{
    assert(bytes.subrange(0, bytes.len() as int) =~= bytes);
}

/// 128 to the power of `digits`.
pub open spec fn radix_pow(digits: nat) -> nat
    decreases digits,
{
    if digits == 0 {
        1
    } else {
        128 * radix_pow((digits - 1) as nat)
    }
}

/// A number below 128^k has at most k digits, and at least one.
pub proof fn lemma_varint_len(n: nat, digits: nat)
    requires
        digits >= 1,
        n < radix_pow(digits),
    ensures
        1 <= varint(n).len() <= digits,
    decreases n,
{
    if n >= 128 {
        assert(radix_pow(1) == 128) by {
            assert(radix_pow(0) == 1);
        }
        assert(digits >= 2);
        assert(radix_pow(digits) == 128 * radix_pow((digits - 1) as nat));
        lemma_varint_len(n / 128, (digits - 1) as nat);
    }
}

/// Five digits hold every `u32`, ten every `u64`.
pub proof fn lemma_digits_suffice()
    ensures
        radix_pow(digits32()) > u32::MAX,
        radix_pow(digits64()) > u64::MAX,
{
    assert(radix_pow(0) == 1);
    assert(radix_pow(1) == 128);
    assert(radix_pow(2) == 16384);
    assert(radix_pow(3) == 2097152);
    assert(radix_pow(4) == 268435456);
    assert(radix_pow(5) == 34359738368);
    assert(radix_pow(6) == 4398046511104);
    assert(radix_pow(7) == 562949953421312);
    assert(radix_pow(8) == 72057594037927936);
    assert(radix_pow(9) == 9223372036854775808);
    assert(radix_pow(10) == 1180591620717411303424);
}

/// The digits of a number spell that number.
pub proof fn lemma_varint_read_back(bytes: Seq<u8>, pos: int, n: nat, limit: nat)
    requires
        occurs_at(bytes, pos, varint(n)),
        varint(n).len() <= limit,
    ensures
        parse_varint(bytes, pos, limit) == Some((n, pos + varint(n).len())),
    decreases n,
{
    lemma_occurs_first(bytes, pos, varint(n));
    if n >= 128 {
        let digit = seq![(n % 128 + 128) as u8];
        lemma_occurs_split(bytes, pos, digit, varint(n / 128));
        lemma_varint_read_back(bytes, pos + 1, n / 128, (limit - 1) as nat);
    }
}

pub proof fn lemma_u32_read_back(bytes: Seq<u8>, pos: int, v: u32)
    requires
        occurs_at(bytes, pos, wire_u32(v)),
    ensures
        parse_u32(bytes, pos) == Ok::<(u32, int), Fault>((v, pos + wire_u32(v).len())),
        2 <= wire_u32(v).len() <= 6,
{
    lemma_digits_suffice();
    lemma_varint_len(v as nat, digits32());
    lemma_occurs_first(bytes, pos, wire_u32(v));
    lemma_occurs_split(bytes, pos, seq![KIND_U32], varint(v as nat));
    lemma_varint_read_back(bytes, pos + 1, v as nat, digits32());
}

pub proof fn lemma_i32_read_back(bytes: Seq<u8>, pos: int, v: i32)
    requires
        occurs_at(bytes, pos, wire_i32(v)),
    ensures
        parse_i32(bytes, pos) == Ok::<(i32, int), Fault>((v, pos + wire_i32(v).len())),
        wire_i32(v).len() >= 2,
        wire_i32(v)[0] == KIND_I32,
{
    lemma_digits_suffice();
    lemma_varint_len(zigzag(v as int), digits32());
    lemma_occurs_first(bytes, pos, wire_i32(v));
    lemma_occurs_split(bytes, pos, seq![KIND_I32], varint(zigzag(v as int)));
    lemma_varint_read_back(bytes, pos + 1, zigzag(v as int), digits32());
}

pub proof fn lemma_i64_read_back(bytes: Seq<u8>, pos: int, v: i64)
    requires
        occurs_at(bytes, pos, wire_i64(v)),
    ensures
        parse_i64(bytes, pos) == Ok::<(i64, int), Fault>((v, pos + wire_i64(v).len())),
        wire_i64(v).len() >= 2,
{
    lemma_digits_suffice();
    lemma_varint_len(zigzag(v as int), digits64());
    lemma_occurs_first(bytes, pos, wire_i64(v));
    lemma_occurs_split(bytes, pos, seq![KIND_I64], varint(zigzag(v as int)));
    lemma_varint_read_back(bytes, pos + 1, zigzag(v as int), digits64());
}

pub proof fn lemma_bytes_read_back(bytes: Seq<u8>, pos: int, payload: Seq<u8>)
    requires
        occurs_at(bytes, pos, wire_bytes(payload)),
        fits(payload.len()),
    ensures
        parse_bytes(bytes, pos) == Ok::<(Seq<u8>, int), Fault>(
            (payload, pos + wire_bytes(payload).len()),
        ),
{
    let prefix = wire_u32(length_prefix(payload.len()));
    lemma_occurs_first(bytes, pos, wire_bytes(payload));
    lemma_occurs_split(bytes, pos, seq![KIND_BYTES] + prefix, payload);
    lemma_occurs_split(bytes, pos, seq![KIND_BYTES], prefix);
    lemma_u32_read_back(bytes, pos + 1, length_prefix(payload.len()));
}

pub proof fn lemma_string_read_back(bytes: Seq<u8>, pos: int, text: Seq<char>)
    requires
        occurs_at(bytes, pos, wire_string(text)),
        fits(encode_utf8(text).len()),
    ensures
        parse_string(bytes, pos) == Ok::<(Seq<char>, int), Fault>(
            (text, pos + wire_string(text).len()),
        ),
        wire_string(text).len() >= 3,
        wire_string(text)[0] == KIND_STRING,
{
    let payload = encode_utf8(text);
    let prefix = wire_u32(length_prefix(payload.len()));
    lemma_occurs_first(bytes, pos, wire_string(text));
    lemma_occurs_split(bytes, pos, seq![KIND_STRING] + prefix, payload);
    lemma_occurs_split(bytes, pos, seq![KIND_STRING], prefix);
    lemma_u32_read_back(bytes, pos + 1, length_prefix(payload.len()));
    encode_utf8_valid_utf8(text);
    encode_utf8_decode_utf8(text);
}

pub proof fn lemma_error_read_back(bytes: Seq<u8>, pos: int, message: Seq<char>)
    requires
        occurs_at(bytes, pos, wire_error(message)),
        fits(encode_utf8(message).len()),
    ensures
        parse_error(bytes, pos) == Ok::<(Seq<char>, int), Fault>(
            (message, pos + wire_error(message).len()),
        ),
        parse_none(bytes, pos) == (false, pos),
{
    lemma_occurs_first(bytes, pos, wire_error(message));
    lemma_occurs_split(bytes, pos, seq![KIND_ERROR], wire_string(message));
    lemma_string_read_back(bytes, pos + 1, message);
    lemma_occurs_first(bytes, pos + 1, wire_string(message));
}

pub proof fn lemma_array_read_back(bytes: Seq<u8>, pos: int, count: nat, item_kind: u8)
    requires
        occurs_at(bytes, pos, wire_array(count, item_kind)),
        fits(count),
    ensures
        parse_array(bytes, pos, item_kind) == Ok::<(nat, int), Fault>(
            (count, pos + wire_array(count, item_kind).len()),
        ),
        wire_array(count, item_kind).len() >= 4,
        wire_array(count, item_kind)[0] == KIND_ARRAY,
{
    let head = seq![KIND_ARRAY, kind_tag(item_kind)];
    lemma_occurs_split(bytes, pos, head, wire_u32(length_prefix(count)));
    lemma_u32_read_back(bytes, pos + 2, length_prefix(count));
    assert(bytes.subrange(pos, pos + 2)[0] == head[0]);
    assert(bytes.subrange(pos, pos + 2)[1] == head[1]);
}

pub proof fn lemma_map_read_back(
    bytes: Seq<u8>,
    pos: int,
    count: nat,
    key_kind: u8,
    value_kind: u8,
)
    requires
        occurs_at(bytes, pos, wire_map(count, key_kind, value_kind)),
        fits(count),
    ensures
        parse_map(bytes, pos, key_kind, value_kind) == Ok::<(nat, int), Fault>(
            (count, pos + wire_map(count, key_kind, value_kind).len()),
        ),
        parse_none(bytes, pos) == (false, pos),
{
    let head = seq![KIND_MAP, kind_tag(key_kind), kind_tag(value_kind)];
    lemma_occurs_split(bytes, pos, head, wire_u32(length_prefix(count)));
    lemma_u32_read_back(bytes, pos + 3, length_prefix(count));
    assert(bytes.subrange(pos, pos + 3)[0] == head[0]);
    assert(bytes.subrange(pos, pos + 3)[1] == head[1]);
    assert(bytes.subrange(pos, pos + 3)[2] == head[2]);
}

} // verus!
