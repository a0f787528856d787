//! The host's side: contexts as buffers of their own.
//!
//! A host reads the context that a guest has answered with into a context
//! of its own, and writes a context, or an error in place of one, into a
//! fresh buffer.

use crate::codec::{accepts_error, EncodeError};
use crate::context::Context;
use crate::http_signature::{Decode, DecodeError, Encode, HttpContext};
use crate::schema::{accepts_context, parse_context, wire_context, Failure};
use crate::wire::{wire_error, Fault};
use vstd::prelude::*;

verus! {

/// A context, as a host runtime holds it.
pub type RuntimeContext = Context;

impl RuntimeContext {
    /// Reads the context that stands at the start of `b` into this one.
    /// Returns `None` where that was done.  Where no context can be read,
    /// this one stays as it is and the reason is returned: the error that
    /// stands in place of the context, the failure of the reader, or
    /// `InvalidStruct` for an absent context.
    pub fn read(&mut self, b: &[u8]) -> (r: Option<DecodeError>)
        ensures
            match parse_context(b@, 0) {
                Ok((Some(context), _)) => r is None && final(self)@ == context,
                Ok((None, _)) => (r matches Some(e) && e@ == Failure::Invalid(
                    Fault::InvalidStruct,
                )) && *final(self) == *old(self),
                Err(failure) => (r matches Some(e) && e@ == failure) && *final(self) == *old(self),
            },
    {
        match HttpContext::decode(b, 0) {
            Ok((Some(context), _)) => {
                *self = context;
                None
            },
            Ok((None, _)) => Some(DecodeError::Invalid(Fault::InvalidStruct)),
            Err(e) => Some(e),
        }
    }

    /// This context, written to a fresh buffer.  Fails where the writer
    /// underneath refuses it.
    pub fn write(&self) -> (r: Result<Vec<u8>, EncodeError>)
        ensures
            r is Ok <==> accepts_context(Seq::empty(), self@),
            r matches Ok(bytes) ==> bytes@ == wire_context(self@),
    {
        let mut bytes: Vec<u8> = Vec::new();
        match self.encode(&mut bytes) {
            Ok(()) => {
                assert(bytes@ =~= wire_context(self@));
                Ok(bytes)
            },
            Err(e) => Err(e),
        }
    }

    /// An error record with the message `error`, written to a fresh buffer,
    /// to stand in place of this context.  Fails where the writer underneath
    /// refuses it.
    pub fn error(&self, error: &str) -> (r: Result<Vec<u8>, EncodeError>)
        ensures
            r is Ok <==> accepts_error(Seq::empty(), error@),
            r matches Ok(bytes) ==> bytes@ == wire_error(error@),
    {
        let mut bytes: Vec<u8> = Vec::new();
        match self.internal_error(&mut bytes, error) {
            Ok(()) => {
                assert(bytes@ =~= wire_error(error@));
                Ok(bytes)
            },
            Err(e) => Err(e),
        }
    }
}

} // verus!
