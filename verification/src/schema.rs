//! The records of the HTTP signature and how they lie on the wire.
//!
//! A record is written as its fields, one after the other, in a fixed order
//! and without names.  In place of any record there may stand the
//! absent-value marker or an error record, and a reader looks for the two, in
//! that order, before it reads the first field.
//!
//! The types here are the mathematical values that the records of
//! `crate::http_signature` stand for.  Headers are kept as the sequence of
//! their entries, in the order in which their keys first came in; no key
//! occurs twice.

use crate::codec::{
    accepts_array, accepts_bytes, accepts_error, accepts_i32, accepts_i64, accepts_map,
    accepts_string,
};
use crate::wire::{
    parse_array, parse_bytes, parse_error, parse_i32, parse_i64, parse_map, parse_none,
    parse_string, wire_array, wire_bytes, wire_error, wire_i32, wire_i64, wire_map, wire_string,
    Fault,
    KIND_ANY, KIND_STRING,
};
use vstd::prelude::*;

verus! {

/// The values of one header, in order.
pub type Values = Seq<Seq<char>>;

/// The entries of a header map: key and values, in the order of insertion.
pub type Entries = Seq<(Seq<char>, Values)>;

pub struct RequestModel {
    pub uri: Seq<char>,
    pub method: Seq<char>,
    pub content_length: i64,
    pub protocol: Seq<char>,
    pub ip: Seq<char>,
    pub body: Seq<u8>,
    pub headers: Entries,
}

pub struct ResponseModel {
    pub status_code: i32,
    pub body: Seq<u8>,
    pub headers: Entries,
}

pub struct ContextModel {
    pub request: RequestModel,
    pub response: ResponseModel,
}

/// Why a record could not be read.
pub enum Failure {
    /// An error record stands in place of the record; this is its message.
    Reported(Seq<char>),
    /// The bytes are not a record.
    Invalid(Fault),
}

/// What a reader of records finds: the record, or the absent-value marker in
/// its place, and the position behind it.
pub type Found<V> = Result<(Option<V>, int), Failure>;

// ---------------------------------------------------------------------------
// Header entries
// ---------------------------------------------------------------------------

/// The position of `key` among the entries, or their number if it is not
/// there.
pub open spec fn position_of(entries: Entries, key: Seq<char>) -> int
    decreases entries.len(),
{
    if entries.len() == 0 {
        0
    } else if entries[0].0 == key {
        0
    } else {
        1 + position_of(entries.skip(1), key)
    }
}

pub open spec fn has_key(entries: Entries, key: Seq<char>) -> bool {
    position_of(entries, key) < entries.len()
}

/// No key occurs twice.
pub open spec fn distinct_keys(entries: Entries) -> bool {
    forall|i: int, j: int|
        0 <= i < j < entries.len() ==> (#[trigger] entries[i]).0 != (#[trigger] entries[j]).0
}

/// The entries after `key` has been set to `values`: an entry with that key
/// keeps its place and gets the new values, a new key goes to the end.
pub open spec fn with_entry(entries: Entries, key: Seq<char>, values: Values) -> Entries {
    if has_key(entries, key) {
        entries.update(position_of(entries, key), (key, values))
    } else {
        entries.push((key, values))
    }
}

/// The entries as a mapping from key to values.
pub open spec fn as_map(entries: Entries) -> Map<Seq<char>, Values> {
    Map::new(
        |key: Seq<char>| has_key(entries, key),
        |key: Seq<char>| entries[position_of(entries, key)].1,
    )
}

// ---------------------------------------------------------------------------
// Writing
// ---------------------------------------------------------------------------

pub open spec fn wire_strings(items: Values) -> Seq<u8>
    decreases items.len(),
{
    if items.len() == 0 {
        Seq::empty()
    } else {
        wire_string(items[0]) + wire_strings(items.skip(1))
    }
}

pub open spec fn wire_string_list(items: Values) -> Seq<u8> {
    wire_array(items.len(), KIND_STRING) + wire_strings(items)
}

pub open spec fn wire_entries(entries: Entries) -> Seq<u8>
    decreases entries.len(),
{
    if entries.len() == 0 {
        Seq::empty()
    } else {
        wire_string(entries[0].0) + wire_string_list(entries[0].1) + wire_entries(entries.skip(1))
    }
}

pub open spec fn wire_headers(entries: Entries) -> Seq<u8> {
    wire_map(entries.len(), KIND_STRING, KIND_ANY) + wire_entries(entries)
}

pub open spec fn wire_request(r: RequestModel) -> Seq<u8> {
    wire_string(r.uri) + wire_string(r.method) + wire_i64(r.content_length) + wire_string(
        r.protocol,
    ) + wire_string(r.ip) + wire_bytes(r.body) + wire_headers(r.headers)
}

pub open spec fn wire_response(r: ResponseModel) -> Seq<u8> {
    wire_i32(r.status_code) + wire_bytes(r.body) + wire_headers(r.headers)
}

pub open spec fn wire_context(c: ContextModel) -> Seq<u8> {
    wire_request(c.request) + wire_response(c.response)
}

// ---------------------------------------------------------------------------
// Whether writing succeeds
// ---------------------------------------------------------------------------
//
// A record is written value by value, each behind what is already there,
// and writing stops at the first value that the writer underneath refuses.
// So a record can be written behind `buffer` if each of its values can be
// written behind `buffer` and the values before it.

pub open spec fn accepts_strings(buffer: Seq<u8>, items: Values) -> bool
    decreases items.len(),
{
    items.len() == 0 || (accepts_string(buffer, items[0]) && accepts_strings(
        buffer + wire_string(items[0]),
        items.skip(1),
    ))
}

pub open spec fn accepts_string_list(buffer: Seq<u8>, items: Values) -> bool {
    &&& accepts_array(buffer, items.len(), KIND_STRING)
    &&& accepts_strings(buffer + wire_array(items.len(), KIND_STRING), items)
}

pub open spec fn accepts_entries(buffer: Seq<u8>, entries: Entries) -> bool
    decreases entries.len(),
{
    entries.len() == 0 || {
        let at_values = buffer + wire_string(entries[0].0);
        &&& accepts_string(buffer, entries[0].0)
        &&& accepts_string_list(at_values, entries[0].1)
        &&& accepts_entries(at_values + wire_string_list(entries[0].1), entries.skip(1))
    }
}

pub open spec fn accepts_headers(buffer: Seq<u8>, entries: Entries) -> bool {
    &&& accepts_map(buffer, entries.len(), KIND_STRING, KIND_ANY)
    &&& accepts_entries(buffer + wire_map(entries.len(), KIND_STRING, KIND_ANY), entries)
}

pub open spec fn accepts_request(buffer: Seq<u8>, r: RequestModel) -> bool {
    let at_method = buffer + wire_string(r.uri);
    let at_length = at_method + wire_string(r.method);
    let at_protocol = at_length + wire_i64(r.content_length);
    let at_ip = at_protocol + wire_string(r.protocol);
    let at_body = at_ip + wire_string(r.ip);
    let at_headers = at_body + wire_bytes(r.body);
    &&& accepts_string(buffer, r.uri)
    &&& accepts_string(at_method, r.method)
    &&& accepts_i64(at_length, r.content_length)
    &&& accepts_string(at_protocol, r.protocol)
    &&& accepts_string(at_ip, r.ip)
    &&& accepts_bytes(at_body, r.body)
    &&& accepts_headers(at_headers, r.headers)
}

pub open spec fn accepts_response(buffer: Seq<u8>, r: ResponseModel) -> bool {
    let at_body = buffer + wire_i32(r.status_code);
    let at_headers = at_body + wire_bytes(r.body);
    &&& accepts_i32(buffer, r.status_code)
    &&& accepts_bytes(at_body, r.body)
    &&& accepts_headers(at_headers, r.headers)
}

pub open spec fn accepts_context(buffer: Seq<u8>, c: ContextModel) -> bool {
    &&& accepts_request(buffer, c.request)
    &&& accepts_response(buffer + wire_request(c.request), c.response)
}

/// What is written in answer to an invocation that ended with an error: an
/// error record with its message, or, where that cannot be written, nothing.
pub open spec fn error_answer(message: Seq<char>) -> Seq<u8> {
    if accepts_error(Seq::empty(), message) {
        wire_error(message)
    } else {
        Seq::empty()
    }
}

// ---------------------------------------------------------------------------
// Reading
// ---------------------------------------------------------------------------

/// Reads `count` strings from `pos` and appends them to `so_far`.
pub open spec fn parse_strings(bytes: Seq<u8>, pos: int, count: nat, so_far: Values) -> Result<
    (Values, int),
    Fault,
>
    decreases count,
{
    if count == 0 {
        Ok((so_far, pos))
    } else {
        match parse_string(bytes, pos) {
            Err(fault) => Err(fault),
            Ok((item, next)) => parse_strings(bytes, next, (count - 1) as nat, so_far.push(item)),
        }
    }
}

pub open spec fn parse_string_list(bytes: Seq<u8>, pos: int) -> Found<Values> {
    match parse_sentinel(bytes, pos) {
        Some(Ok(next)) => Ok((None, next)),
        Some(Err(failure)) => Err(failure),
        None => match parse_array(bytes, pos, KIND_STRING) {
            Err(fault) => Err(Failure::Invalid(fault)),
            Ok((count, start)) => match parse_strings(bytes, start, count, Seq::empty()) {
                Err(fault) => Err(Failure::Invalid(fault)),
                Ok((items, next)) => Ok((Some(items), next)),
            },
        },
    }
}

/// Reads `count` pairs of a key and its values from `pos` and sets them, one
/// after the other, in `so_far`.  A pair whose values are absent is invalid.
pub open spec fn parse_entries(bytes: Seq<u8>, pos: int, count: nat, so_far: Entries) -> Result<
    (Entries, int),
    Failure,
>
    decreases count,
{
    if count == 0 {
        Ok((so_far, pos))
    } else {
        match parse_string(bytes, pos) {
            Err(fault) => Err(Failure::Invalid(fault)),
            Ok((key, at_values)) => match parse_string_list(bytes, at_values) {
                Err(failure) => Err(failure),
                Ok((None, _)) => Err(Failure::Invalid(Fault::InvalidMap)),
                Ok((Some(values), next)) => parse_entries(
                    bytes,
                    next,
                    (count - 1) as nat,
                    with_entry(so_far, key, values),
                ),
            },
        }
    }
}

/// Reads a header map.  Absent headers are invalid, and so is any header
/// that cannot be read as a map from strings.
pub open spec fn parse_headers(bytes: Seq<u8>, pos: int) -> Result<(Entries, int), Failure> {
    if parse_none(bytes, pos).0 {
        Err(Failure::Invalid(Fault::InvalidMap))
    } else {
        match parse_map(bytes, pos, KIND_STRING, KIND_ANY) {
            Err(_) => Err(Failure::Invalid(Fault::InvalidU32)),
            Ok((count, start)) => parse_entries(bytes, start, count, Seq::empty()),
        }
    }
}

/// What a reader finds where a field of a record is expected.
pub open spec fn field<V>(found: Result<(V, int), Fault>) -> Result<(V, int), Failure> {
    match found {
        Ok(got) => Ok(got),
        Err(fault) => Err(Failure::Invalid(fault)),
    }
}

/// The fields of a request, in wire order.
pub open spec fn parse_request_fields(bytes: Seq<u8>, pos: int) -> Result<
    (RequestModel, int),
    Failure,
> {
    match field(parse_string(bytes, pos)) {
        Err(failure) => Err(failure),
        Ok((uri, at_method)) => match field(parse_string(bytes, at_method)) {
            Err(failure) => Err(failure),
            Ok((method, at_length)) => match field(parse_i64(bytes, at_length)) {
                Err(failure) => Err(failure),
                Ok((content_length, at_protocol)) => match field(parse_string(bytes, at_protocol)) {
                    Err(failure) => Err(failure),
                    Ok((protocol, at_ip)) => match field(parse_string(bytes, at_ip)) {
                        Err(failure) => Err(failure),
                        Ok((ip, at_body)) => match field(parse_bytes(bytes, at_body)) {
                            Err(failure) => Err(failure),
                            Ok((body, at_headers)) => match parse_headers(bytes, at_headers) {
                                Err(failure) => Err(failure),
                                Ok((headers, next)) => Ok(
                                    (
                                        RequestModel {
                                            uri,
                                            method,
                                            content_length,
                                            protocol,
                                            ip,
                                            body,
                                            headers,
                                        },
                                        next,
                                    ),
                                ),
                            },
                        },
                    },
                },
            },
        },
    }
}

/// The fields of a response, in wire order.
pub open spec fn parse_response_fields(bytes: Seq<u8>, pos: int) -> Result<
    (ResponseModel, int),
    Failure,
> {
    match field(parse_i32(bytes, pos)) {
        Err(failure) => Err(failure),
        Ok((status_code, at_body)) => match field(parse_bytes(bytes, at_body)) {
            Err(failure) => Err(failure),
            Ok((body, at_headers)) => match parse_headers(bytes, at_headers) {
                Err(failure) => Err(failure),
                Ok((headers, next)) => Ok((ResponseModel { status_code, body, headers }, next)),
            },
        },
    }
}

/// What stands at `pos` in place of a record, if anything does: the
/// absent-value marker is looked for first, an error record second.
pub open spec fn parse_sentinel(bytes: Seq<u8>, pos: int) -> Option<Result<int, Failure>> {
    if parse_none(bytes, pos).0 {
        Some(Ok(parse_none(bytes, pos).1))
    } else {
        match parse_error(bytes, pos) {
            Ok((message, _)) => Some(Err(Failure::Reported(message))),
            Err(_) => None,
        }
    }
}

pub open spec fn parse_request(bytes: Seq<u8>, pos: int) -> Found<RequestModel> {
    match parse_sentinel(bytes, pos) {
        Some(Ok(next)) => Ok((None, next)),
        Some(Err(failure)) => Err(failure),
        None => match parse_request_fields(bytes, pos) {
            Err(failure) => Err(failure),
            Ok((request, next)) => Ok((Some(request), next)),
        },
    }
}

pub open spec fn parse_response(bytes: Seq<u8>, pos: int) -> Found<ResponseModel> {
    match parse_sentinel(bytes, pos) {
        Some(Ok(next)) => Ok((None, next)),
        Some(Err(failure)) => Err(failure),
        None => match parse_response_fields(bytes, pos) {
            Err(failure) => Err(failure),
            Ok((response, next)) => Ok((Some(response), next)),
        },
    }
}

/// A context is a request followed by a response; neither may be absent.
pub open spec fn parse_context(bytes: Seq<u8>, pos: int) -> Found<ContextModel> {
    match parse_sentinel(bytes, pos) {
        Some(Ok(next)) => Ok((None, next)),
        Some(Err(failure)) => Err(failure),
        None => match parse_request(bytes, pos) {
            Err(failure) => Err(failure),
            Ok((None, _)) => Err(Failure::Invalid(Fault::InvalidStruct)),
            Ok((Some(request), at_response)) => match parse_response(bytes, at_response) {
                Err(failure) => Err(failure),
                Ok((None, _)) => Err(Failure::Invalid(Fault::InvalidStruct)),
                Ok((Some(response), next)) => Ok((Some(ContextModel { request, response }), next)),
            },
        },
    }
}

} // verus!
