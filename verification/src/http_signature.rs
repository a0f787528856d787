//! The records of the HTTP signature and their encoding.
//!
//! Each record can be appended to a buffer and read back from one.  What is
//! written and what is read is stated in terms of `crate::schema`.

use crate::codec::{
    accepts_error, read_array, read_bytes, read_error, read_i32, read_i64, read_map, read_none,
    read_string, write_array, write_bytes, write_error, write_i32, write_i64, write_map,
    write_string, EncodeError,
};
use crate::headers::Headers;
use crate::schema::{
    accepts_context, accepts_entries, accepts_headers, accepts_request, accepts_response,
    accepts_string_list, accepts_strings, parse_context, parse_entries, parse_headers,
    parse_request, parse_request_fields, parse_response, parse_response_fields, parse_sentinel,
    parse_string_list, parse_strings, wire_context, wire_entries, wire_headers, wire_request,
    wire_response, wire_string_list, wire_strings, ContextModel, Entries, Failure, Found,
    RequestModel, ResponseModel, Values,
};
use crate::wire::{
    begins_with, fault_name, wire_error, wire_string, Fault, KIND_ANY, KIND_STRING,
};
use vstd::prelude::*;

verus! {

/// Why a record could not be read.
#[derive(Debug)]
pub enum DecodeError {
    /// An error record stands in place of the record; this is its message.
    Reported(String),
    /// The bytes are not a record.
    Invalid(Fault),
}

impl View for DecodeError {
    type V = Failure;

    open spec fn view(&self) -> Failure {
        match self {
            DecodeError::Reported(message) => Failure::Reported(message@),
            DecodeError::Invalid(fault) => Failure::Invalid(*fault),
        }
    }
}

/// What a failure says: the message that was reported, or the name of the
/// fault.
pub open spec fn failure_text(failure: Failure) -> Seq<char> {
    match failure {
        Failure::Reported(message) => message,
        Failure::Invalid(fault) => fault_name(fault),
    }
}

impl DecodeError {
    /// The description of the error.
    pub fn message(&self) -> (text: String)
        ensures
            text@ == failure_text(self@),
    {
        match self {
            DecodeError::Reported(message) => message.clone(),
            DecodeError::Invalid(fault) => fault.name().to_owned(),
        }
    }
}

/// Whether what a reader of records returned is what `found` says stands in
/// the buffer.
pub open spec fn decoded<T: View>(
    got: Result<(Option<T>, usize), DecodeError>,
    found: Found<T::V>,
) -> bool {
    match got {
        Ok((Some(record), next)) => found == Ok::<(Option<T::V>, int), Failure>(
            (Some(record@), next as int),
        ),
        Ok((None, next)) => found == Ok::<(Option<T::V>, int), Failure>((None, next as int)),
        Err(e) => found == Err::<(Option<T::V>, int), Failure>(e@),
    }
}

/// A record that can be written to the wire.
pub trait Encode {
    /// The bytes that stand for the record.
    spec fn wire(&self) -> Seq<u8>;

    /// Whether the writer underneath takes the record behind `buffer`.
    spec fn accepted(&self, buffer: Seq<u8>) -> bool;

    /// Appends the record to `b`.  Fails where the writer underneath refuses
    /// one of its values; `b` then holds what it held and, behind that, what
    /// was written before the refusal.
    fn encode(&self, b: &mut Vec<u8>) -> (r: Result<(), EncodeError>)
        ensures
            r is Ok <==> self.accepted(old(b)@),
            r is Ok ==> final(b)@ == old(b)@ + self.wire(),
            begins_with(final(b)@, old(b)@),
    ;

    /// Appends an error record with the given message to `b`, to stand in
    /// place of this record.  Fails where the writer underneath does.
    fn internal_error(&self, b: &mut Vec<u8>, error: &str) -> (r: Result<(), EncodeError>)
        ensures
            r is Ok <==> accepts_error(old(b)@, error@),
            r is Ok ==> final(b)@ == old(b)@ + wire_error(error@),
            begins_with(final(b)@, old(b)@),
    ;
}

/// A record that can be read from the wire.
pub trait Decode: View + Sized {
    /// What a reader finds at `pos` where this record is expected.
    spec fn parse(bytes: Seq<u8>, pos: int) -> Found<Self::V>;

    /// Reads the record that starts at `pos`.  Returns it, or `None` where
    /// the absent-value marker stands in its place, with the position behind
    /// it.
    fn decode(bytes: &[u8], pos: usize) -> (r: Result<(Option<Self>, usize), DecodeError>)
        ensures
            decoded(r, Self::parse(bytes@, pos as int)),
    ;
}

/// The values of one header, in order.
#[derive(Debug)]
pub struct HttpStringList {
    pub value: Vec<String>,
}

impl View for HttpStringList {
    type V = Values;

    open spec fn view(&self) -> Values {
        self.value@.map_values(|s: String| s@)
    }
}

impl Clone for HttpStringList {
    fn clone(&self) -> (copy: Self)
        ensures
            copy@ == self@,
    {
        let mut value: Vec<String> = Vec::new();
        let mut i: usize = 0;
        while i < self.value.len()
            invariant
                i <= self.value.len(),
                value@.map_values(|s: String| s@) =~= self@.take(i as int),
            decreases self.value.len() - i,
        {
            let ghost so_far = value@.map_values(|s: String| s@);
            let item = self.value[i].clone();
            value.push(item);
            assert(value@.map_values(|s: String| s@) =~= so_far.push(item@));
            assert(self@.take(i + 1) =~= self@.take(i as int).push(self@[i as int]));
            i += 1;
        }
        assert(self@.take(i as int) =~= self@);
        HttpStringList { value }
    }
}

/// Writing one more string after some strings is writing them all.
pub proof fn lemma_wire_strings_push(items: Values, last: Seq<char>)
    ensures
        wire_strings(items.push(last)) == wire_strings(items) + wire_string(last),
    decreases items.len(),
{
    let all = items.push(last);
    if items.len() == 0 {
        assert(all.skip(1) =~= Seq::<Seq<char>>::empty());
        assert(wire_strings(all.skip(1)) =~= Seq::<u8>::empty());
        assert(wire_strings(all) =~= wire_strings(items) + wire_string(last));
    } else {
        assert(all.skip(1) =~= items.skip(1).push(last));
        lemma_wire_strings_push(items.skip(1), last);
        assert(wire_strings(all) =~= wire_strings(items) + wire_string(last));
    }
}

impl Encode for HttpStringList {
    open spec fn wire(&self) -> Seq<u8> {
        wire_string_list(self@)
    }

    open spec fn accepted(&self, buffer: Seq<u8>) -> bool {
        accepts_string_list(buffer, self@)
    }

    #[verifier::loop_isolation(false)]
    fn encode(&self, b: &mut Vec<u8>) -> (r: Result<(), EncodeError>) {
        write_array(b, self.value.len(), KIND_STRING)?;
        let ghost head = b@;
        let mut i: usize = 0;
        assert(self@.take(0) =~= Seq::<Seq<char>>::empty());
        assert(self@.skip(0) =~= self@);
        while i < self.value.len()
            invariant
                i <= self.value.len(),
                b@ == head + wire_strings(self@.take(i as int)),
                accepts_strings(head, self@) == accepts_strings(b@, self@.skip(i as int)),
            decreases self.value.len() - i,
        {
            proof {
                let rest = self@.skip(i as int);
                assert(rest[0] == self@[i as int]);
                assert(rest.skip(1) =~= self@.skip(i + 1));
            }
            write_string(b, &self.value[i])?;
            proof {
                lemma_wire_strings_push(self@.take(i as int), self@[i as int]);
                assert(self@.take(i + 1) =~= self@.take(i as int).push(self@[i as int]));
                assert(b@ =~= head + wire_strings(self@.take(i + 1)));
            }
            i += 1;
        }
        assert(self@.take(i as int) =~= self@);
        assert(b@ =~= old(b)@ + self.wire());
        Ok(())
    }

    fn internal_error(&self, b: &mut Vec<u8>, error: &str) -> (r: Result<(), EncodeError>) {
        write_error(b, error)
    }
}

/// Looks at `pos` for what may stand in place of a record.  Returns the
/// position behind the absent-value marker if it is there, the message of an
/// error record if that is there, and `None` if a record has to be read.
fn read_sentinel(bytes: &[u8], pos: usize) -> (r: Option<Result<usize, DecodeError>>)
    ensures
        match r {
            Some(Ok(next)) => parse_sentinel(bytes@, pos as int) == Some(
                Ok::<int, Failure>(next as int),
            ),
            Some(Err(e)) => parse_sentinel(bytes@, pos as int) == Some(Err::<int, Failure>(e@)),
            None => parse_sentinel(bytes@, pos as int) is None,
        },
{
    let (absent, next) = read_none(bytes, pos);
    if absent {
        return Some(Ok(next));
    }
    match read_error(bytes, pos) {
        Ok((message, _)) => Some(Err(DecodeError::Reported(message))),
        Err(_) => None,
    }
}

impl Decode for HttpStringList {
    open spec fn parse(bytes: Seq<u8>, pos: int) -> Found<Values> {
        parse_string_list(bytes, pos)
    }

    #[verifier::loop_isolation(false)]
    fn decode(bytes: &[u8], pos: usize) -> (r: Result<
        (Option<HttpStringList>, usize),
        DecodeError,
    >) {
        match read_sentinel(bytes, pos) {
            Some(Ok(next)) => { return Ok((None, next)); },
            Some(Err(e)) => { return Err(e); },
            None => {},
        }
        let (count, start) = match read_array(bytes, pos, KIND_STRING) {
            Ok(got) => got,
            Err(fault) => { return Err(DecodeError::Invalid(fault)); },
        };
        let mut value: Vec<String> = Vec::new();
        let mut at = start;
        let mut i: usize = 0;
        let ghost all = parse_strings(bytes@, start as int, count as nat, Seq::empty());
        assert(value@.map_values(|s: String| s@) =~= Seq::<Seq<char>>::empty());
        while i < count
            invariant
                i <= count,
                all == parse_strings(
                    bytes@,
                    at as int,
                    (count - i) as nat,
                    value@.map_values(|s: String| s@),
                ),
            decreases count - i,
        {
            let ghost so_far = value@.map_values(|s: String| s@);
            match read_string(bytes, at) {
                Err(fault) => { return Err(DecodeError::Invalid(fault)); },
                Ok((item, next)) => {
                    value.push(item);
                    at = next;
                    assert(value@.map_values(|s: String| s@) =~= so_far.push(item@));
                },
            }
            i += 1;
        }
        Ok((Some(HttpStringList { value }), at))
    }
}

/// The request of an exchange.
#[derive(Debug)]
pub struct HttpRequest {
    pub(crate) headers: Headers,
    pub(crate) uri: String,
    pub(crate) method: String,
    pub(crate) content_length: i64,
    pub(crate) protocol: String,
    pub(crate) ip: String,
    pub(crate) body: Vec<u8>,
}

impl View for HttpRequest {
    type V = RequestModel;

    open(crate) spec fn view(&self) -> RequestModel {
        RequestModel {
            uri: self.uri@,
            method: self.method@,
            content_length: self.content_length,
            protocol: self.protocol@,
            ip: self.ip@,
            body: self.body@,
            headers: self.headers.entries(),
        }
    }
}

impl Clone for HttpRequest {
    fn clone(&self) -> (copy: Self)
        ensures
            copy@ == self@,
    {
        HttpRequest {
            headers: self.headers.clone(),
            uri: self.uri.clone(),
            method: self.method.clone(),
            content_length: self.content_length,
            protocol: self.protocol.clone(),
            ip: self.ip.clone(),
            body: self.body.clone(),
        }
    }
}

/// Writing one more entry after some entries is writing them all.
pub proof fn lemma_wire_entries_push(entries: Entries, last: (Seq<char>, Values))
    ensures
        wire_entries(entries.push(last)) == wire_entries(entries) + wire_string(last.0)
            + wire_string_list(last.1),
    decreases entries.len(),
{
    let all = entries.push(last);
    if entries.len() == 0 {
        assert(all.skip(1) =~= Seq::<(Seq<char>, Values)>::empty());
        assert(wire_entries(all.skip(1)) =~= Seq::<u8>::empty());
        assert(wire_entries(all) =~= wire_entries(entries) + wire_string(last.0)
            + wire_string_list(last.1));
    } else {
        assert(all.skip(1) =~= entries.skip(1).push(last));
        lemma_wire_entries_push(entries.skip(1), last);
        assert(wire_entries(all) =~= wire_entries(entries) + wire_string(last.0)
            + wire_string_list(last.1));
    }
}

/// Appends a header map to `b`: its header, then each entry as its key and
/// its values, in the order of the entries.  Fails where the writer
/// underneath refuses one of these; `b` then holds what it held and, behind
/// that, what was written before the refusal.
#[verifier::loop_isolation(false)]
pub fn encode_headers(headers: &Headers, b: &mut Vec<u8>) -> (r: Result<(), EncodeError>)
    ensures
        r is Ok <==> accepts_headers(old(b)@, headers.entries()),
        r is Ok ==> final(b)@ == old(b)@ + wire_headers(headers.entries()),
        begins_with(final(b)@, old(b)@),
{
    let count = headers.len();
    write_map(b, count, KIND_STRING, KIND_ANY)?;
    let ghost entries = headers.entries();
    let ghost head = old(b)@ + crate::wire::wire_map(entries.len(), KIND_STRING, KIND_ANY);
    let mut i: usize = 0;
    assert(entries.take(0) =~= Seq::<(Seq<char>, Values)>::empty());
    assert(entries.skip(0) =~= entries);
    while i < count
        invariant
            i <= count,
            count == entries.len(),
            entries == headers.entries(),
            b@ == head + wire_entries(entries.take(i as int)),
            accepts_entries(head, entries) == accepts_entries(b@, entries.skip(i as int)),
        decreases count - i,
    {
        proof {
            let rest = entries.skip(i as int);
            assert(rest[0] == entries[i as int]);
            assert(rest.skip(1) =~= entries.skip(i + 1));
        }
        write_string(b, headers.key_at(i))?;
        headers.values_at(i).encode(b)?;
        proof {
            lemma_wire_entries_push(entries.take(i as int), entries[i as int]);
            assert(entries.take(i + 1) =~= entries.take(i as int).push(entries[i as int]));
            assert(b@ =~= head + wire_entries(entries.take(i + 1)));
        }
        i += 1;
    }
    assert(entries.take(i as int) =~= entries);
    assert(b@ =~= old(b)@ + wire_headers(entries));
    Ok(())
}

/// Reads a header map at `pos`.  A key that comes a second time replaces the
/// values that came with it before.
#[verifier::loop_isolation(false)]
pub fn decode_headers(bytes: &[u8], pos: usize) -> (r: Result<(Headers, usize), DecodeError>)
    ensures
        match r {
            Ok((headers, next)) => parse_headers(bytes@, pos as int) == Ok::<
                (Entries, int),
                Failure,
            >((headers.entries(), next as int)),
            Err(e) => parse_headers(bytes@, pos as int) == Err::<(Entries, int), Failure>(e@),
        },
{
    let (absent, _) = read_none(bytes, pos);
    if absent {
        return Err(DecodeError::Invalid(Fault::InvalidMap));
    }
    let (count, start) = match read_map(bytes, pos, KIND_STRING, KIND_ANY) {
        Ok(got) => got,
        Err(_) => { return Err(DecodeError::Invalid(Fault::InvalidU32)); },
    };
    let mut headers = Headers::new();
    let mut at = start;
    let mut i: usize = 0;
    let ghost all = parse_entries(bytes@, start as int, count as nat, Seq::empty());
    while i < count
        invariant
            i <= count,
            all == parse_entries(bytes@, at as int, (count - i) as nat, headers.entries()),
        decreases count - i,
    {
        let (key, at_values) = match read_string(bytes, at) {
            Ok(got) => got,
            Err(fault) => { return Err(DecodeError::Invalid(fault)); },
        };
        let (values, next) = match HttpStringList::decode(bytes, at_values) {
            Err(e) => { return Err(e); },
            Ok((None, _)) => { return Err(DecodeError::Invalid(Fault::InvalidMap)); },
            Ok((Some(values), next)) => (values, next),
        };
        headers.insert(key, values);
        at = next;
        i += 1;
    }
    Ok((headers, at))
}

impl Encode for HttpRequest {
    open spec fn wire(&self) -> Seq<u8> {
        wire_request(self@)
    }

    open spec fn accepted(&self, buffer: Seq<u8>) -> bool {
        accepts_request(buffer, self@)
    }

    fn encode(&self, b: &mut Vec<u8>) -> (r: Result<(), EncodeError>) {
        write_string(b, &self.uri)?;
        write_string(b, &self.method)?;
        write_i64(b, self.content_length)?;
        write_string(b, &self.protocol)?;
        write_string(b, &self.ip)?;
        write_bytes(b, self.body.as_slice())?;
        encode_headers(&self.headers, b)?;
        assert(b@ =~= old(b)@ + self.wire());
        Ok(())
    }

    fn internal_error(&self, b: &mut Vec<u8>, error: &str) -> (r: Result<(), EncodeError>) {
        write_error(b, error)
    }
}

/// Reads the fields of a request, in wire order, from `pos`.
fn decode_request_fields(bytes: &[u8], pos: usize) -> (r: Result<(HttpRequest, usize), DecodeError>)
    ensures
        match r {
            Ok((request, next)) => parse_request_fields(bytes@, pos as int) == Ok::<
                (RequestModel, int),
                Failure,
            >((request@, next as int)),
            Err(e) => parse_request_fields(bytes@, pos as int) == Err::<
                (RequestModel, int),
                Failure,
            >(e@),
        },
{
    let (uri, at_method) = match read_string(bytes, pos) {
        Ok(got) => got,
        Err(fault) => { return Err(DecodeError::Invalid(fault)); },
    };
    let (method, at_length) = match read_string(bytes, at_method) {
        Ok(got) => got,
        Err(fault) => { return Err(DecodeError::Invalid(fault)); },
    };
    let (content_length, at_protocol) = match read_i64(bytes, at_length) {
        Ok(got) => got,
        Err(fault) => { return Err(DecodeError::Invalid(fault)); },
    };
    let (protocol, at_ip) = match read_string(bytes, at_protocol) {
        Ok(got) => got,
        Err(fault) => { return Err(DecodeError::Invalid(fault)); },
    };
    let (ip, at_body) = match read_string(bytes, at_ip) {
        Ok(got) => got,
        Err(fault) => { return Err(DecodeError::Invalid(fault)); },
    };
    let (body, at_headers) = match read_bytes(bytes, at_body) {
        Ok(got) => got,
        Err(fault) => { return Err(DecodeError::Invalid(fault)); },
    };
    let (headers, next) = match decode_headers(bytes, at_headers) {
        Ok(got) => got,
        Err(e) => { return Err(e); },
    };
    Ok((HttpRequest { headers, uri, method, content_length, protocol, ip, body }, next))
}

impl Decode for HttpRequest {
    open spec fn parse(bytes: Seq<u8>, pos: int) -> Found<RequestModel> {
        parse_request(bytes, pos)
    }

    fn decode(bytes: &[u8], pos: usize) -> (r: Result<(Option<HttpRequest>, usize), DecodeError>) {
        match read_sentinel(bytes, pos) {
            Some(Ok(next)) => { return Ok((None, next)); },
            Some(Err(e)) => { return Err(e); },
            None => {},
        }
        match decode_request_fields(bytes, pos) {
            Ok((request, next)) => Ok((Some(request), next)),
            Err(e) => Err(e),
        }
    }
}

/// The response of an exchange.
#[derive(Debug)]
pub struct HttpResponse {
    pub(crate) headers: Headers,
    pub(crate) status_code: i32,
    pub(crate) body: Vec<u8>,
}

impl View for HttpResponse {
    type V = ResponseModel;

    open(crate) spec fn view(&self) -> ResponseModel {
        ResponseModel {
            status_code: self.status_code,
            body: self.body@,
            headers: self.headers.entries(),
        }
    }
}

impl Clone for HttpResponse {
    fn clone(&self) -> (copy: Self)
        ensures
            copy@ == self@,
    {
        HttpResponse {
            headers: self.headers.clone(),
            status_code: self.status_code,
            body: self.body.clone(),
        }
    }
}

impl Encode for HttpResponse {
    open spec fn wire(&self) -> Seq<u8> {
        wire_response(self@)
    }

    open spec fn accepted(&self, buffer: Seq<u8>) -> bool {
        accepts_response(buffer, self@)
    }

    fn encode(&self, b: &mut Vec<u8>) -> (r: Result<(), EncodeError>) {
        write_i32(b, self.status_code)?;
        write_bytes(b, self.body.as_slice())?;
        encode_headers(&self.headers, b)?;
        assert(b@ =~= old(b)@ + self.wire());
        Ok(())
    }

    fn internal_error(&self, b: &mut Vec<u8>, error: &str) -> (r: Result<(), EncodeError>) {
        write_error(b, error)
    }
}

/// Reads the fields of a response, in wire order, from `pos`.
fn decode_response_fields(bytes: &[u8], pos: usize) -> (r: Result<
    (HttpResponse, usize),
    DecodeError,
>)
    ensures
        match r {
            Ok((response, next)) => parse_response_fields(bytes@, pos as int) == Ok::<
                (ResponseModel, int),
                Failure,
            >((response@, next as int)),
            Err(e) => parse_response_fields(bytes@, pos as int) == Err::<
                (ResponseModel, int),
                Failure,
            >(e@),
        },
{
    let (status_code, at_body) = match read_i32(bytes, pos) {
        Ok(got) => got,
        Err(fault) => { return Err(DecodeError::Invalid(fault)); },
    };
    let (body, at_headers) = match read_bytes(bytes, at_body) {
        Ok(got) => got,
        Err(fault) => { return Err(DecodeError::Invalid(fault)); },
    };
    let (headers, next) = match decode_headers(bytes, at_headers) {
        Ok(got) => got,
        Err(e) => { return Err(e); },
    };
    Ok((HttpResponse { headers, status_code, body }, next))
}

impl Decode for HttpResponse {
    open spec fn parse(bytes: Seq<u8>, pos: int) -> Found<ResponseModel> {
        parse_response(bytes, pos)
    }

    fn decode(bytes: &[u8], pos: usize) -> (r: Result<(Option<HttpResponse>, usize), DecodeError>) {
        match read_sentinel(bytes, pos) {
            Some(Ok(next)) => { return Ok((None, next)); },
            Some(Err(e)) => { return Err(e); },
            None => {},
        }
        match decode_response_fields(bytes, pos) {
            Ok((response, next)) => Ok((Some(response), next)),
            Err(e) => Err(e),
        }
    }
}

/// One exchange: a request and the response to it.
#[derive(Debug)]
pub struct HttpContext {
    pub(crate) request: HttpRequest,
    pub(crate) response: HttpResponse,
}

impl View for HttpContext {
    type V = ContextModel;

    open(crate) spec fn view(&self) -> ContextModel {
        ContextModel { request: self.request@, response: self.response@ }
    }
}

impl Clone for HttpContext {
    fn clone(&self) -> (copy: Self)
        ensures
            copy@ == self@,
    {
        HttpContext { request: self.request.clone(), response: self.response.clone() }
    }
}

impl Encode for HttpContext {
    open spec fn wire(&self) -> Seq<u8> {
        wire_context(self@)
    }

    open spec fn accepted(&self, buffer: Seq<u8>) -> bool {
        accepts_context(buffer, self@)
    }

    fn encode(&self, b: &mut Vec<u8>) -> (r: Result<(), EncodeError>) {
        self.request.encode(b)?;
        self.response.encode(b)?;
        assert(b@ =~= old(b)@ + self.wire());
        Ok(())
    }

    fn internal_error(&self, b: &mut Vec<u8>, error: &str) -> (r: Result<(), EncodeError>) {
        write_error(b, error)
    }
}

impl Decode for HttpContext {
    open spec fn parse(bytes: Seq<u8>, pos: int) -> Found<ContextModel> {
        parse_context(bytes, pos)
    }

    fn decode(bytes: &[u8], pos: usize) -> (r: Result<(Option<HttpContext>, usize), DecodeError>) {
        match read_sentinel(bytes, pos) {
            Some(Ok(next)) => { return Ok((None, next)); },
            Some(Err(e)) => { return Err(e); },
            None => {},
        }
        let (request, at_response) = match HttpRequest::decode(bytes, pos) {
            Err(e) => { return Err(e); },
            Ok((None, _)) => { return Err(DecodeError::Invalid(Fault::InvalidStruct)); },
            Ok((Some(request), next)) => (request, next),
        };
        let (response, next) = match HttpResponse::decode(bytes, at_response) {
            Err(e) => { return Err(e); },
            Ok((None, _)) => { return Err(DecodeError::Invalid(Fault::InvalidStruct)); },
            Ok((Some(response), next)) => (response, next),
        };
        Ok((Some(HttpContext { request, response }), next))
    }
}

} // verus!
