//! What holds of the records and the wire together.
//!
//! The laws are stated over the mathematical values of `crate::schema`.  The
//! contracts of `Encode::encode` and `Decode::decode` are stated over the
//! same functions, so each law speaks of what the executable code does.
//!
//! A record is valid when its headers hold no key twice and every length in
//! it fits the `u32` that carries it on the wire.

use crate::headers::lemma_position_bounds;
use crate::schema::{
    distinct_keys, has_key, parse_context, parse_entries, parse_headers, parse_request,
    parse_request_fields, parse_response, parse_response_fields, parse_sentinel,
    parse_string_list, parse_strings, wire_context, wire_entries, wire_headers, wire_request,
    wire_response, wire_string_list, wire_strings, with_entry, ContextModel, Entries, Failure,
    RequestModel, ResponseModel, Values,
};
use crate::wire::{
    parse_bytes, parse_string, parse_u32, tag_at, wire_array,
    wire_bytes, wire_error, wire_i32, wire_i64, wire_map, wire_none, wire_string, Fault, KIND_ANY,
    KIND_BYTES, KIND_STRING,
};
use crate::wire_proofs::{
    fits, lemma_array_read_back, lemma_bytes_read_back, lemma_error_read_back,
    lemma_i32_read_back, lemma_i64_read_back, lemma_map_read_back, lemma_occurs_first,
    lemma_occurs_split, lemma_occurs_whole, lemma_string_read_back, occurs_at,
};
use vstd::prelude::*;
use vstd::utf8::*;

verus! {

/// A text whose UTF-8 form is short enough for the wire.
pub open spec fn text_fits(text: Seq<char>) -> bool {
    fits(encode_utf8(text).len())
}

pub open spec fn values_fit(values: Values) -> bool {
    &&& fits(values.len())
    &&& forall|i: int| 0 <= i < values.len() ==> text_fits(#[trigger] values[i])
}

pub open spec fn entries_fit(entries: Entries) -> bool {
    &&& fits(entries.len())
    &&& forall|i: int|
        0 <= i < entries.len() ==> text_fits((#[trigger] entries[i]).0) && values_fit(entries[i].1)
}

pub open spec fn valid_headers(entries: Entries) -> bool {
    entries_fit(entries) && distinct_keys(entries)
}

pub open spec fn valid_request(r: RequestModel) -> bool {
    &&& text_fits(r.uri)
    &&& text_fits(r.method)
    &&& text_fits(r.protocol)
    &&& text_fits(r.ip)
    &&& fits(r.body.len())
    &&& valid_headers(r.headers)
}

pub open spec fn valid_response(r: ResponseModel) -> bool {
    fits(r.body.len()) && valid_headers(r.headers)
}

pub open spec fn valid_context(c: ContextModel) -> bool {
    valid_request(c.request) && valid_response(c.response)
}

// ---------------------------------------------------------------------------
// Reading back what stands somewhere in a buffer
// ---------------------------------------------------------------------------

/// Where a byte other than the two sentinel tags stands, a record is read.
proof fn lemma_no_sentinel(bytes: Seq<u8>, pos: int)
    requires
        0 <= pos < bytes.len(),
        bytes[pos] != crate::wire::KIND_NONE,
        bytes[pos] != crate::wire::KIND_ERROR,
    ensures
        parse_sentinel(bytes, pos) is None,
{
}

pub proof fn lemma_strings_read_back(bytes: Seq<u8>, pos: int, items: Values, so_far: Values)
    requires
        occurs_at(bytes, pos, wire_strings(items)),
        forall|i: int| 0 <= i < items.len() ==> text_fits(#[trigger] items[i]),
    ensures
        parse_strings(bytes, pos, items.len(), so_far) == Ok::<(Values, int), Fault>(
            (so_far + items, pos + wire_strings(items).len()),
        ),
    decreases items.len(),
{
    if items.len() == 0 {
        assert(so_far + items =~= so_far);
    } else {
        let rest = items.skip(1);
        lemma_occurs_split(bytes, pos, wire_string(items[0]), wire_strings(rest));
        lemma_string_read_back(bytes, pos, items[0]);
        assert forall|i: int| 0 <= i < rest.len() implies text_fits(#[trigger] rest[i]) by {
            assert(rest[i] == items[i + 1]);
        }
        lemma_strings_read_back(
            bytes,
            pos + wire_string(items[0]).len(),
            rest,
            so_far.push(items[0]),
        );
        assert(so_far.push(items[0]) + rest =~= so_far + items);
    }
}

pub proof fn lemma_string_list_read_back(bytes: Seq<u8>, pos: int, items: Values)
    requires
        occurs_at(bytes, pos, wire_string_list(items)),
        values_fit(items),
    ensures
        parse_string_list(bytes, pos) == Ok::<(Option<Values>, int), Failure>(
            (Some(items), pos + wire_string_list(items).len()),
        ),
{
    let head = wire_array(items.len(), KIND_STRING);
    lemma_occurs_split(bytes, pos, head, wire_strings(items));
    lemma_array_read_back(bytes, pos, items.len(), KIND_STRING);
    lemma_occurs_first(bytes, pos, head);
    lemma_no_sentinel(bytes, pos);
    lemma_strings_read_back(bytes, pos + head.len(), items, Seq::empty());
    assert(Seq::<Seq<char>>::empty() + items =~= items);
}

pub proof fn lemma_entries_read_back(bytes: Seq<u8>, pos: int, entries: Entries, so_far: Entries)
    requires
        occurs_at(bytes, pos, wire_entries(entries)),
        forall|i: int|
            0 <= i < entries.len() ==> text_fits((#[trigger] entries[i]).0) && values_fit(
                entries[i].1,
            ),
        distinct_keys(so_far + entries),
    ensures
        parse_entries(bytes, pos, entries.len(), so_far) == Ok::<(Entries, int), Failure>(
            (so_far + entries, pos + wire_entries(entries).len()),
        ),
    decreases entries.len(),
{
    if entries.len() == 0 {
        assert(so_far + entries =~= so_far);
    } else {
        let all = so_far + entries;
        let first = entries[0];
        let rest = entries.skip(1);
        let key_bytes = wire_string(first.0);
        let values_bytes = wire_string_list(first.1);
        lemma_occurs_split(bytes, pos, key_bytes + values_bytes, wire_entries(rest));
        lemma_occurs_split(bytes, pos, key_bytes, values_bytes);
        lemma_string_read_back(bytes, pos, first.0);
        lemma_string_list_read_back(bytes, pos + key_bytes.len(), first.1);
        assert(!has_key(so_far, first.0)) by {
            lemma_position_bounds(so_far, first.0);
            if has_key(so_far, first.0) {
                let at = crate::schema::position_of(so_far, first.0);
                assert(all[at] == so_far[at]);
                assert(all[so_far.len() as int] == first);
            }
        }
        assert(with_entry(so_far, first.0, first.1) == so_far.push(first));
        assert(so_far.push(first) + rest =~= all);
        assert forall|i: int| 0 <= i < rest.len() implies text_fits((#[trigger] rest[i]).0)
            && values_fit(rest[i].1) by {
            assert(rest[i] == entries[i + 1]);
        }
        lemma_entries_read_back(
            bytes,
            pos + key_bytes.len() + values_bytes.len(),
            rest,
            so_far.push(first),
        );
    }
}

pub proof fn lemma_headers_read_back(bytes: Seq<u8>, pos: int, entries: Entries)
    requires
        occurs_at(bytes, pos, wire_headers(entries)),
        valid_headers(entries),
    ensures
        parse_headers(bytes, pos) == Ok::<(Entries, int), Failure>(
            (entries, pos + wire_headers(entries).len()),
        ),
{
    let head = wire_map(entries.len(), KIND_STRING, KIND_ANY);
    lemma_occurs_split(bytes, pos, head, wire_entries(entries));
    lemma_map_read_back(bytes, pos, entries.len(), KIND_STRING, KIND_ANY);
    assert(Seq::<(Seq<char>, Values)>::empty() + entries =~= entries);
    lemma_entries_read_back(bytes, pos + head.len(), entries, Seq::empty());
}

pub proof fn lemma_request_read_back(bytes: Seq<u8>, pos: int, r: RequestModel)
    requires
        occurs_at(bytes, pos, wire_request(r)),
        valid_request(r),
    ensures
        parse_request(bytes, pos) == Ok::<(Option<RequestModel>, int), Failure>(
            (Some(r), pos + wire_request(r).len()),
        ),
{
    let w1 = wire_string(r.uri);
    let w2 = wire_string(r.method);
    let w3 = wire_i64(r.content_length);
    let w4 = wire_string(r.protocol);
    let w5 = wire_string(r.ip);
    let w6 = wire_bytes(r.body);
    let w7 = wire_headers(r.headers);
    lemma_occurs_split(bytes, pos, w1 + w2 + w3 + w4 + w5 + w6, w7);
    lemma_occurs_split(bytes, pos, w1 + w2 + w3 + w4 + w5, w6);
    lemma_occurs_split(bytes, pos, w1 + w2 + w3 + w4, w5);
    lemma_occurs_split(bytes, pos, w1 + w2 + w3, w4);
    lemma_occurs_split(bytes, pos, w1 + w2, w3);
    lemma_occurs_split(bytes, pos, w1, w2);
    let at_method = pos + w1.len();
    let at_length = at_method + w2.len();
    let at_protocol = at_length + w3.len();
    let at_ip = at_protocol + w4.len();
    let at_body = at_ip + w5.len();
    let at_headers = at_body + w6.len();
    lemma_string_read_back(bytes, pos, r.uri);
    lemma_string_read_back(bytes, at_method, r.method);
    lemma_i64_read_back(bytes, at_length, r.content_length);
    lemma_string_read_back(bytes, at_protocol, r.protocol);
    lemma_string_read_back(bytes, at_ip, r.ip);
    lemma_bytes_read_back(bytes, at_body, r.body);
    lemma_headers_read_back(bytes, at_headers, r.headers);
    lemma_occurs_first(bytes, pos, w1);
    lemma_no_sentinel(bytes, pos);
    assert(parse_request_fields(bytes, pos) == Ok::<(RequestModel, int), Failure>(
        (r, at_headers + w7.len()),
    ));
}

pub proof fn lemma_response_read_back(bytes: Seq<u8>, pos: int, r: ResponseModel)
    requires
        occurs_at(bytes, pos, wire_response(r)),
        valid_response(r),
    ensures
        parse_response(bytes, pos) == Ok::<(Option<ResponseModel>, int), Failure>(
            (Some(r), pos + wire_response(r).len()),
        ),
{
    let w1 = wire_i32(r.status_code);
    let w2 = wire_bytes(r.body);
    let w3 = wire_headers(r.headers);
    lemma_occurs_split(bytes, pos, w1 + w2, w3);
    lemma_occurs_split(bytes, pos, w1, w2);
    let at_body = pos + w1.len();
    let at_headers = at_body + w2.len();
    lemma_i32_read_back(bytes, pos, r.status_code);
    lemma_bytes_read_back(bytes, at_body, r.body);
    lemma_headers_read_back(bytes, at_headers, r.headers);
    lemma_occurs_first(bytes, pos, w1);
    lemma_no_sentinel(bytes, pos);
    assert(parse_response_fields(bytes, pos) == Ok::<(ResponseModel, int), Failure>(
        (r, at_headers + w3.len()),
    ));
}

pub proof fn lemma_context_read_back(bytes: Seq<u8>, pos: int, c: ContextModel)
    requires
        occurs_at(bytes, pos, wire_context(c)),
        valid_context(c),
    ensures
        parse_context(bytes, pos) == Ok::<(Option<ContextModel>, int), Failure>(
            (Some(c), pos + wire_context(c).len()),
        ),
{
    let w1 = wire_request(c.request);
    lemma_occurs_split(bytes, pos, w1, wire_response(c.response));
    lemma_request_read_back(bytes, pos, c.request);
    lemma_response_read_back(bytes, pos + w1.len(), c.response);
    // A context starts with its request, which starts with a string.
    let uri = wire_string(c.request.uri);
    let after_uri = wire_string(c.request.method) + wire_i64(c.request.content_length)
        + wire_string(c.request.protocol) + wire_string(c.request.ip) + wire_bytes(
        c.request.body,
    ) + wire_headers(c.request.headers);
    assert(w1 =~= uri + after_uri);
    lemma_occurs_split(bytes, pos, uri, after_uri);
    lemma_string_read_back(bytes, pos, c.request.uri);
    lemma_occurs_first(bytes, pos, uri);
    lemma_no_sentinel(bytes, pos);
}

// ---------------------------------------------------------------------------
// Round trips
// ---------------------------------------------------------------------------

/// Reading what was written for a valid context gives that context back,
/// field for field, and uses up every byte.  Headers come back with their
/// entries in the order in which they were written.
pub proof fn law_context_round_trip(c: ContextModel)
    requires
        valid_context(c),
    ensures
        parse_context(wire_context(c), 0) == Ok::<(Option<ContextModel>, int), Failure>(
            (Some(c), wire_context(c).len() as int),
        ),
{
    lemma_occurs_whole(wire_context(c));
    lemma_context_read_back(wire_context(c), 0, c);
}

/// Reading what was written for a valid request gives that request back.
pub proof fn law_request_round_trip(r: RequestModel)
    requires
        valid_request(r),
    ensures
        parse_request(wire_request(r), 0) == Ok::<(Option<RequestModel>, int), Failure>(
            (Some(r), wire_request(r).len() as int),
        ),
{
    lemma_occurs_whole(wire_request(r));
    lemma_request_read_back(wire_request(r), 0, r);
}

/// Reading what was written for a valid response gives that response back.
pub proof fn law_response_round_trip(r: ResponseModel)
    requires
        valid_response(r),
    ensures
        parse_response(wire_response(r), 0) == Ok::<(Option<ResponseModel>, int), Failure>(
            (Some(r), wire_response(r).len() as int),
        ),
{
    lemma_occurs_whole(wire_response(r));
    lemma_response_read_back(wire_response(r), 0, r);
}

/// The values of a header come back in the order in which they were
/// written: the list that is read is the list that was written, place by
/// place.
pub proof fn law_string_list_keeps_order(values: Values)
    requires
        values_fit(values),
    ensures
        parse_string_list(wire_string_list(values), 0) matches Ok((Some(read), _)) && read.len()
            == values.len() && forall|i: int| 0 <= i < values.len() ==> read[i] == values[i],
{
    lemma_occurs_whole(wire_string_list(values));
    lemma_string_list_read_back(wire_string_list(values), 0, values);
}

/// A header map comes back with the same keys and, under each key, the same
/// values.
pub proof fn law_headers_round_trip(entries: Entries)
    requires
        valid_headers(entries),
    ensures
        parse_headers(wire_headers(entries), 0) matches Ok((read, _)) && crate::schema::as_map(read)
            == crate::schema::as_map(entries),
{
    lemma_occurs_whole(wire_headers(entries));
    lemma_headers_read_back(wire_headers(entries), 0, entries);
}

// ---------------------------------------------------------------------------
// The error record
// ---------------------------------------------------------------------------

/// Where an error record stands, no reader finds the absent-value marker and
/// none reads a record or a part of one: each reports the message.
pub proof fn law_error_takes_precedence(bytes: Seq<u8>, pos: int, message: Seq<char>)
    requires
        occurs_at(bytes, pos, wire_error(message)),
        text_fits(message),
    ensures
        parse_context(bytes, pos) == Err::<(Option<ContextModel>, int), Failure>(
            Failure::Reported(message),
        ),
        parse_request(bytes, pos) == Err::<(Option<RequestModel>, int), Failure>(
            Failure::Reported(message),
        ),
        parse_response(bytes, pos) == Err::<(Option<ResponseModel>, int), Failure>(
            Failure::Reported(message),
        ),
        parse_string_list(bytes, pos) == Err::<(Option<Values>, int), Failure>(
            Failure::Reported(message),
        ),
{
    lemma_error_read_back(bytes, pos, message);
}

/// A buffer that holds an error record and nothing else is read as that
/// error by the reader of every record.
pub proof fn law_error_buffer(message: Seq<char>)
    requires
        text_fits(message),
    ensures
        parse_context(wire_error(message), 0) == Err::<(Option<ContextModel>, int), Failure>(
            Failure::Reported(message),
        ),
        parse_request(wire_error(message), 0) == Err::<(Option<RequestModel>, int), Failure>(
            Failure::Reported(message),
        ),
        parse_response(wire_error(message), 0) == Err::<(Option<ResponseModel>, int), Failure>(
            Failure::Reported(message),
        ),
        parse_string_list(wire_error(message), 0) == Err::<(Option<Values>, int), Failure>(
            Failure::Reported(message),
        ),
{
    lemma_occurs_whole(wire_error(message));
    law_error_takes_precedence(wire_error(message), 0, message);
}

// ---------------------------------------------------------------------------
// The absent-value marker
// ---------------------------------------------------------------------------

/// Where the absent-value marker stands, every reader of records finds no
/// record, and no error either, and stops behind the marker.
pub proof fn law_marker_is_no_record(bytes: Seq<u8>, pos: int)
    requires
        occurs_at(bytes, pos, wire_none()),
    ensures
        parse_context(bytes, pos) == Ok::<(Option<ContextModel>, int), Failure>((None, pos + 1)),
        parse_request(bytes, pos) == Ok::<(Option<RequestModel>, int), Failure>((None, pos + 1)),
        parse_response(bytes, pos) == Ok::<(Option<ResponseModel>, int), Failure>(
            (None, pos + 1),
        ),
        parse_string_list(bytes, pos) == Ok::<(Option<Values>, int), Failure>((None, pos + 1)),
{
    lemma_occurs_first(bytes, pos, wire_none());
}

// ---------------------------------------------------------------------------
// Buffers that end too early
// ---------------------------------------------------------------------------

/// At the end of a buffer, and so in an empty one, every reader of records
/// reports that the first thing it looks for is invalid.
pub proof fn law_nothing_to_read(bytes: Seq<u8>, pos: int)
    requires
        pos >= bytes.len(),
    ensures
        parse_context(bytes, pos) == Err::<(Option<ContextModel>, int), Failure>(
            Failure::Invalid(Fault::InvalidString),
        ),
        parse_request(bytes, pos) == Err::<(Option<RequestModel>, int), Failure>(
            Failure::Invalid(Fault::InvalidString),
        ),
        parse_response(bytes, pos) == Err::<(Option<ResponseModel>, int), Failure>(
            Failure::Invalid(Fault::InvalidI32),
        ),
        parse_string_list(bytes, pos) == Err::<(Option<Values>, int), Failure>(
            Failure::Invalid(Fault::InvalidArray),
        ),
{
}

/// A string or byte string whose announced length reaches behind the end of
/// the buffer is invalid.
pub proof fn law_payload_cut_short(bytes: Seq<u8>, pos: int)
    requires
        parse_u32(bytes, pos + 1) matches Ok((size, start)) && start + size > bytes.len(),
    ensures
        tag_at(bytes, pos, KIND_STRING) ==> parse_string(bytes, pos) == Err::<
            (Seq<char>, int),
            Fault,
        >(Fault::InvalidString),
        tag_at(bytes, pos, KIND_BYTES) ==> parse_bytes(bytes, pos) == Err::<(Seq<u8>, int), Fault>(
            Fault::InvalidBytes,
        ),
        tag_at(bytes, pos, KIND_STRING) ==> parse_context(bytes, pos) == Err::<
            (Option<ContextModel>, int),
            Failure,
        >(Failure::Invalid(Fault::InvalidString)),
{
    if tag_at(bytes, pos, KIND_STRING) {
        lemma_no_sentinel(bytes, pos);
    }
}

} // verus!
