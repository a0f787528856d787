//! The guest's side of the memory bridge.
//!
//! A guest and its host share no heap.  They exchange serialized contexts
//! through one scratch buffer in the guest's memory: the host asks the guest
//! to make room (`Bridge::resize`), writes into the room it was given, and
//! calls the guest; the guest reads its input from the buffer, puts its
//! output in the buffer's place, and hands back where that output lies, as an
//! address and a length packed into one `u64`.
//!
//! The bridge is an ordinary value, owned by whoever runs the guest.  One
//! invocation uses it at a time.

use crate::codec::{accepts_error, EncodeError};
use crate::context::empty_context;
use crate::http_signature::{Decode, DecodeError, Encode, HttpContext, HttpRequest, HttpResponse};
use crate::schema::{
    accepts_context, error_answer, parse_context, wire_context, ContextModel, Failure,
};
use crate::wire::{wire_error, Fault};
use vstd::prelude::*;
use vstd::slice::slice_subrange;

verus! {

/// `Vec::as_ptr`, cut to the 32 bits of an address in guest memory.  Nothing
/// is claimed of the address: it is whatever the allocator chose.
#[verifier::external_body]
fn address_of(buffer: &Vec<u8>) -> u32 {
    buffer.as_ptr() as u32
}

/// `Vec::shrink_to_fit`.  Claims that the contents stay as they are.
#[verifier::external_body]
fn shrink_to_fit(buffer: &mut Vec<u8>)
    ensures
        final(buffer)@ == old(buffer)@,
{
    buffer.shrink_to_fit()
}

/// An address and a length in one number: the address in the high 32 bits,
/// the length in the low 32 bits.
pub open spec fn packed(address: u32, length: u32) -> u64 {
    (address as u64 * 0x1_0000_0000 + length) as u64
}

/// Packs an address and a length into one number.
pub fn pack(address: u32, length: u32) -> (r: u64)
    ensures
        r == packed(address, length),
{
    let r = ((address as u64) << 32) | (length as u64);
    assert(((address as u64) << 32) | (length as u64) == (address as u64) * 0x1_0000_0000 + (
    length as u64)) by (bit_vector);
    r
}

/// Takes a packed number apart again.
pub fn unpack(packed: u64) -> (r: (u32, u32))
    ensures
        r.0 == packed / 0x1_0000_0000,
        r.1 == packed % 0x1_0000_0000,
{
    let address = (packed >> 32) as u32;
    let length = (packed & 0xffff_ffff) as u32;
    assert(packed >> 32 == packed / 0x1_0000_0000) by (bit_vector);
    assert(packed & 0xffff_ffff == packed % 0x1_0000_0000) by (bit_vector);
    (address, length)
}

/// Packing loses nothing: the address and the length can be read off the
/// packed number.
pub proof fn law_unpack_pack(address: u32, length: u32)
    ensures
        packed(address, length) / 0x1_0000_0000 == address,
        packed(address, length) % 0x1_0000_0000 == length,
{
}

/// The scratch buffer and what was last agreed with the host about it.
pub struct Bridge {
    scratch: Vec<u8>,
    pending_ptr: u32,
    pending_len: u32,
}

impl Bridge {
    #[verifier::type_invariant]
    spec fn in_bounds(&self) -> bool {
        self.pending_len <= self.scratch@.len()
    }

    /// The bytes of the scratch buffer.
    pub closed spec fn contents(&self) -> Seq<u8> {
        self.scratch@
    }

    /// How many bytes the scratch buffer has room for.
    pub open spec fn capacity(&self) -> nat {
        self.contents().len()
    }

    /// The address of the scratch buffer, as the host was last told.
    pub closed spec fn address(&self) -> u32 {
        self.pending_ptr
    }

    /// The length last agreed with the host.
    pub closed spec fn length(&self) -> u32 {
        self.pending_len
    }

    /// The part of the scratch buffer that was last agreed with the host.
    pub open spec fn pending(&self) -> Seq<u8> {
        self.contents().subrange(0, self.length() as int)
    }

    /// What `resize` does to a bridge: the buffer grows to the size asked
    /// for, and never shrinks; what it held stays where it was; a buffer
    /// that is large enough is left alone, at its address.
    pub open spec fn resized(before: Bridge, size: u32, after: Bridge) -> bool {
        &&& after.capacity() == if before.capacity() < size {
            size as nat
        } else {
            before.capacity()
        }
        &&& after.contents().subrange(0, before.capacity() as int) == before.contents()
        &&& after.length() == size
        &&& size <= before.capacity() ==> after.address() == before.address()
    }

    /// What a write by the host does to a bridge: bytes change, nothing else.
    pub open spec fn written(before: Bridge, data: Seq<u8>, after: Bridge) -> bool {
        &&& data.len() <= before.length()
        &&& after.contents() == data + before.contents().subrange(
            data.len() as int,
            before.capacity() as int,
        )
        &&& after.address() == before.address()
        &&& after.length() == before.length()
    }

    /// A bridge with an empty buffer.
    pub fn new() -> (bridge: Bridge)
        ensures
            bridge.capacity() == 0,
            bridge.length() == 0,
    {
        let scratch: Vec<u8> = Vec::new();
        let pending_ptr = address_of(&scratch);
        Bridge { scratch, pending_ptr, pending_len: 0 }
    }

    /// Takes the buffer out of the bridge, with the address and the length
    /// that went with it.  The bridge is left empty.
    fn take(&mut self) -> (parts: (Vec<u8>, u32, u32))
        ensures
            parts.0@ == old(self).contents(),
            parts.1 == old(self).address(),
            parts.2 == old(self).length(),
            parts.2 <= parts.0@.len(),
    {
        proof {
            use_type_invariant(&*self);
        }
        let mut taken = Bridge { scratch: Vec::new(), pending_ptr: 0, pending_len: 0 };
        std::mem::swap(self, &mut taken);
        let Bridge { scratch, pending_ptr, pending_len } = taken;
        (scratch, pending_ptr, pending_len)
    }

    /// Makes room for `size` bytes and returns the address at which the host
    /// may write them.
    pub fn resize(&mut self, size: u32) -> (address: u32)
        ensures
            Bridge::resized(*old(self), size, *final(self)),
            address == final(self).address(),
    {
        let (mut scratch, mut pending_ptr, _) = self.take();
        if scratch.len() < size as usize {
            scratch.resize(size as usize, 0u8);
            pending_ptr = address_of(&scratch);
        } else {
            assert(scratch@.subrange(0, scratch@.len() as int) =~= scratch@);
        }
        *self = Bridge { scratch, pending_ptr, pending_len: size };
        pending_ptr
    }

    /// Writes `data` to the start of the room that was last made, as the
    /// host does.  Returns `false`, and writes nothing, if `data` is longer
    /// than that room.
    pub fn write(&mut self, data: &[u8]) -> (done: bool)
        ensures
            done <==> data@.len() <= old(self).length(),
            done ==> Bridge::written(*old(self), data@, *final(self)),
            !done ==> *final(self) == *old(self),
    {
        proof {
            use_type_invariant(&*self);
        }
        if data.len() > self.pending_len as usize {
            return false;
        }
        let (mut scratch, pending_ptr, pending_len) = self.take();
        let ghost before = scratch@;
        let mut i: usize = 0;
        while i < data.len()
            invariant
                i <= data@.len() <= scratch@.len(),
                scratch@.len() == before.len(),
                scratch@ =~= data@.subrange(0, i as int) + before.subrange(
                    i as int,
                    before.len() as int,
                ),
            decreases data@.len() - i,
        {
            scratch[i] = data[i];
            i += 1;
        }
        assert(data@.subrange(0, i as int) =~= data@);
        *self = Bridge { scratch, pending_ptr, pending_len };
        true
    }

    /// The address of the scratch buffer, as the host was last told.
    pub fn pending_ptr(&self) -> (address: u32)
        ensures
            address == self.address(),
    {
        self.pending_ptr
    }

    /// The length last agreed with the host.
    pub fn pending_len(&self) -> (length: u32)
        ensures
            length == self.length(),
            length <= self.capacity(),
    {
        proof {
            use_type_invariant(self);
        }
        self.pending_len
    }

    /// How many bytes the scratch buffer has room for.
    pub fn room(&self) -> (bytes: usize)
        ensures
            bytes == self.capacity(),
    {
        self.scratch.len()
    }

    /// The bytes that the host has written: the room that was last made.
    pub fn input(&self) -> (bytes: &[u8])
        ensures
            bytes@ == self.pending(),
    {
        proof {
            use_type_invariant(self);
        }
        slice_subrange(self.scratch.as_slice(), 0, self.pending_len as usize)
    }

    /// Puts `bytes` in the place of the scratch buffer and returns where they
    /// lie: their address and their length.  A length of more than 32 bits is
    /// cut to its low 32 bits.
    pub fn publish(&mut self, bytes: Vec<u8>) -> (place: (u32, u32))
        ensures
            final(self).contents() == bytes@,
            final(self).length() == crate::wire::length_prefix(bytes@.len()),
            place == (final(self).address(), final(self).length()),
    {
        let mut scratch = bytes;
        shrink_to_fit(&mut scratch);
        let pending_ptr = address_of(&scratch);
        let pending_len = (scratch.len() as u64 % 0x1_0000_0000) as u32;
        *self = Bridge { scratch, pending_ptr, pending_len };
        (pending_ptr, pending_len)
    }
}

/// Asking twice for the same room changes nothing the second time: the
/// buffer keeps its address, its capacity and its bytes.
pub proof fn law_resize_idempotent(start: Bridge, once: Bridge, twice: Bridge, size: u32)
    requires
        Bridge::resized(start, size, once),
        Bridge::resized(once, size, twice),
    ensures
        twice.address() == once.address(),
        twice.capacity() == once.capacity(),
        twice.contents() == once.contents(),
        twice.length() == once.length(),
{
    assert(twice.contents().subrange(0, once.capacity() as int) =~= twice.contents());
}

/// Asking for more room keeps what was written into the room there was.
pub proof fn law_resize_keeps_bytes(
    start: Bridge,
    small: Bridge,
    filled: Bridge,
    large: Bridge,
    n: u32,
    m: u32,
    data: Seq<u8>,
)
    requires
        Bridge::resized(start, n, small),
        Bridge::written(small, data, filled),
        Bridge::resized(filled, m, large),
        m > n,
    ensures
        large.capacity() >= m,
        large.contents().subrange(0, n as int) == filled.contents().subrange(0, n as int),
        large.contents().subrange(0, data.len() as int) == data,
{
    let kept = large.contents().subrange(0, filled.capacity() as int);
    assert(large.contents().subrange(0, n as int) =~= kept.subrange(0, n as int));
    assert(large.contents().subrange(0, data.len() as int) =~= kept.subrange(
        0,
        data.len() as int,
    ));
    assert(filled.contents().subrange(0, data.len() as int) =~= data);
}

/// Whether `got` is what a guest makes of what stands in its input: the
/// record that stands there, the error that stands in its place, the failure
/// of the reader, or, where the record is absent, `InvalidStruct`.
pub open spec fn received<T: View>(got: Result<T, DecodeError>, found: Result<
    (Option<T::V>, int),
    Failure,
>) -> bool {
    match found {
        Ok((Some(record), _)) => got matches Ok(context) && context@ == record,
        Ok((None, _)) => got matches Err(e) && e@ == Failure::Invalid(Fault::InvalidStruct),
        Err(failure) => got matches Err(e) && e@ == failure,
    }
}

/// Whether the bridge holds exactly `bytes` and `place` says where: the
/// address of the buffer and the length of the bytes, cut to 32 bits.
pub open spec fn handed_over(bridge: Bridge, bytes: Seq<u8>, place: (u32, u32)) -> bool {
    &&& bridge.contents() == bytes
    &&& bridge.length() == crate::wire::length_prefix(bytes.len())
    &&& place == (bridge.address(), bridge.length())
}

/// What a guest does with the context of an invocation.
///
/// Handing a context on to the next module of a chain takes two steps, with
/// the host at work in between: `begin_next` puts the context in the buffer
/// and says where it lies; the host is called with that place, runs the next
/// module, makes room for its answer with `Bridge::resize` and writes it;
/// `finish_next` reads the answer.
pub trait GuestContext: Encode + Decode {
    /// The value of a fresh context.
    spec fn fresh() -> Self::V;

    /// The request of the context.
    spec fn request_of(&self) -> HttpRequest;

    /// The response of the context.
    spec fn response_of(&self) -> HttpResponse;

    /// A fresh context.
    fn new() -> (context: Self)
        ensures
            context@ == Self::fresh(),
    ;

    /// Reads a context from the start of `read_buff`.  An absent context is
    /// reported as `InvalidStruct`.
    fn from_read_buffer(self, read_buff: &[u8]) -> (r: Result<Self, DecodeError>)
        ensures
            received(r, Self::parse(read_buff@, 0)),
    ;

    /// Writes the context to a buffer of its own and puts that in the place
    /// of the scratch buffer.  Returns the address and the length of it.
    /// Where the writer underneath refuses the context the bridge stays as
    /// it is.
    fn to_write_buffer(self, bridge: &mut Bridge) -> (r: Result<(u32, u32), EncodeError>)
        ensures
            r is Ok <==> self.accepted(Seq::<u8>::empty()),
            match r {
                Ok(place) => handed_over(*final(bridge), self.wire(), place),
                Err(_) => *final(bridge) == *old(bridge),
            },
    ;

    /// Writes an error record with the message `error` to a buffer of its
    /// own and puts that in the place of the scratch buffer.  Returns the
    /// address and the length of it.  Where the writer underneath refuses
    /// the record the bridge stays as it is.
    fn error_write_buffer(self, bridge: &mut Bridge, error: &str) -> (r: Result<
        (u32, u32),
        EncodeError,
    >)
        ensures
            r is Ok <==> accepts_error(Seq::<u8>::empty(), error@),
            match r {
                Ok(place) => handed_over(*final(bridge), wire_error(error@), place),
                Err(_) => *final(bridge) == *old(bridge),
            },
    ;

    /// The first step of handing the context on: as `to_write_buffer`.  The
    /// place it returns is what the host is to be called with.
    fn begin_next(self, bridge: &mut Bridge) -> (r: Result<(u32, u32), EncodeError>)
        ensures
            r is Ok <==> self.accepted(Seq::<u8>::empty()),
            match r {
                Ok(place) => handed_over(*final(bridge), self.wire(), place),
                Err(_) => *final(bridge) == *old(bridge),
            },
    ;

    /// The last step of handing the context on: reads the context that the
    /// host has written into the room it asked for.
    fn finish_next(bridge: &Bridge) -> (r: Result<Self, DecodeError>)
        ensures
            received(r, Self::parse(bridge.pending(), 0)),
    ;

    fn request(&mut self) -> (request: &mut HttpRequest)
        ensures
            *request == old(self).request_of(),
            final(self).request_of() == *final(request),
            final(self).response_of() == old(self).response_of(),
    ;

    fn response(&mut self) -> (response: &mut HttpResponse)
        ensures
            *response == old(self).response_of(),
            final(self).response_of() == *final(response),
            final(self).request_of() == old(self).request_of(),
    ;
}

impl GuestContext for HttpContext {
    open spec fn fresh() -> ContextModel {
        empty_context()
    }

    open(crate) spec fn request_of(&self) -> HttpRequest {
        self.request
    }

    open(crate) spec fn response_of(&self) -> HttpResponse {
        self.response
    }

    fn new() -> (context: HttpContext) {
        crate::context::new()
    }

    fn from_read_buffer(self, read_buff: &[u8]) -> (r: Result<HttpContext, DecodeError>) {
        match HttpContext::decode(read_buff, 0) {
            Ok((Some(context), _)) => Ok(context),
            Ok((None, _)) => Err(DecodeError::Invalid(Fault::InvalidStruct)),
            Err(e) => Err(e),
        }
    }

    fn to_write_buffer(self, bridge: &mut Bridge) -> (r: Result<(u32, u32), EncodeError>) {
        let mut written: Vec<u8> = Vec::new();
        match self.encode(&mut written) {
            Ok(()) => {
                assert(written@ =~= self.wire());
                Ok(bridge.publish(written))
            },
            Err(e) => Err(e),
        }
    }

    fn error_write_buffer(self, bridge: &mut Bridge, error: &str) -> (r: Result<
        (u32, u32),
        EncodeError,
    >) {
        let mut written: Vec<u8> = Vec::new();
        match self.internal_error(&mut written, error) {
            Ok(()) => {
                assert(written@ =~= wire_error(error@));
                Ok(bridge.publish(written))
            },
            Err(e) => Err(e),
        }
    }

    fn begin_next(self, bridge: &mut Bridge) -> (r: Result<(u32, u32), EncodeError>) {
        self.to_write_buffer(bridge)
    }

    fn finish_next(bridge: &Bridge) -> (r: Result<HttpContext, DecodeError>) {
        let fresh: HttpContext = GuestContext::new();
        fresh.from_read_buffer(bridge.input())
    }

    fn request(&mut self) -> (request: &mut HttpRequest) {
        &mut self.request
    }

    fn response(&mut self) -> (response: &mut HttpResponse) {
        &mut self.response
    }
}

/// How an invocation ended, as mathematics: with a context or with the
/// message of an error.
pub open spec fn outcome_model(outcome: Result<HttpContext, String>) -> Result<
    ContextModel,
    Seq<char>,
> {
    match outcome {
        Ok(context) => Ok(context@),
        Err(message) => Err(message@),
    }
}

/// What is written in answer to an invocation that ended with `outcome`.
/// The answer to a context is that context; the answer to an error is an
/// error record with its message.  Where the writer underneath refuses the
/// context, the answer is an error record that says so.  Where it refuses an
/// error record, the answer is empty, which no reader takes for a record.
pub open spec fn answer(outcome: Result<ContextModel, Seq<char>>) -> Seq<u8> {
    match outcome {
        Ok(context) => if accepts_context(Seq::empty(), context) {
            wire_context(context)
        } else {
            error_answer("WriteFailed"@)
        },
        Err(message) => error_answer(message),
    }
}

/// Puts an error record with the given message in the buffer, or, where that
/// cannot be written, nothing.
fn answer_error(bridge: &mut Bridge, message: &str) -> (place: (u32, u32))
    ensures
        handed_over(*final(bridge), error_answer(message@), place),
{
    let fresh: HttpContext = GuestContext::new();
    match fresh.error_write_buffer(bridge, message) {
        Ok(place) => place,
        Err(_) => bridge.publish(Vec::new()),
    }
}

/// The input of an invocation: the context that the host has written into
/// the room it asked for.
pub fn run_input(bridge: &Bridge) -> (r: Result<HttpContext, DecodeError>)
    ensures
        received(r, parse_context(bridge.pending(), 0)),
{
    HttpContext::finish_next(bridge)
}

/// The output of an invocation: puts the answer to `outcome` in the buffer
/// and returns where it lies, packed.  No outcome makes this fail: what
/// cannot be written as it is, is answered with an error.
pub fn run_output(bridge: &mut Bridge, outcome: Result<HttpContext, String>) -> (place: u64)
    ensures
        final(bridge).contents() == answer(outcome_model(outcome)),
        final(bridge).length() == crate::wire::length_prefix(final(bridge).capacity()),
        place == packed(final(bridge).address(), final(bridge).length()),
{
    let place = match outcome {
        Ok(context) => match context.to_write_buffer(bridge) {
            Ok(place) => place,
            Err(e) => answer_error(bridge, e.message()),
        },
        Err(message) => answer_error(bridge, message.as_str()),
    };
    pack(place.0, place.1)
}

/// One invocation of the guest: reads a context from the room that the host
/// has filled, hands it to `transform`, and answers with what `transform`
/// made of it.  An input that cannot be read is answered with an error
/// record that says why, and `transform` is not called.
pub fn run<F>(bridge: &mut Bridge, transform: F) -> (place: u64) where
    F: FnOnce(HttpContext) -> Result<HttpContext, String>,

    requires
        forall|context: HttpContext| call_requires(transform, (context,)),
    ensures
        place == packed(final(bridge).address(), final(bridge).length()),
        final(bridge).length() == crate::wire::length_prefix(final(bridge).capacity()),
        match parse_context(old(bridge).pending(), 0) {
            Ok((Some(input), _)) => exists|context: HttpContext, outcome: Result<HttpContext, String>|
                context@ == input && call_ensures(transform, (context,), outcome)
                    && final(bridge).contents() == answer(outcome_model(outcome)),
            Ok((None, _)) => final(bridge).contents() == error_answer(
                crate::wire::fault_name(Fault::InvalidStruct),
            ),
            Err(failure) => final(bridge).contents() == error_answer(
                crate::http_signature::failure_text(failure),
            ),
        },
{
    match run_input(bridge) {
        Ok(context) => {
            let outcome = transform(context);
            run_output(bridge, outcome)
        },
        Err(e) => run_output(bridge, Err(e.message())),
    }
}

} // verus!
