//! Reading and changing a request.
//!
//! Setting the body also sets `content_length` to the length of the new
//! body.  Nothing else keeps the two in step: a request that was read from
//! the wire holds the content length that was written there.

use crate::headers::Headers;
use crate::http_signature::{HttpRequest, HttpStringList};
use crate::schema::{as_map, with_entry, RequestModel};
use vstd::prelude::*;
use vstd::slice::slice_to_vec;
use vstd::utf8::*;

verus! {

/// A request, by its short name.
pub type Request = HttpRequest;

impl Request {
    /// The method of the request.
    pub fn method(&mut self) -> (method: String)
        ensures
            method@ == old(self)@.method,
            *final(self) == *old(self),
    {
        self.method.clone()
    }

    /// Sets the method.
    pub fn set_method(&mut self, method: String) -> (request: &mut Self)
        ensures
            request@ == (RequestModel { method: method@, ..old(self)@ }),
            *final(self) == *final(request),
    {
        self.method = method;
        self
    }

    /// The URI of the request.
    pub fn uri(&mut self) -> (uri: String)
        ensures
            uri@ == old(self)@.uri,
            *final(self) == *old(self),
    {
        self.uri.clone()
    }

    /// Sets the URI.
    pub fn set_uri(&mut self, uri: String) -> (request: &mut Self)
        ensures
            request@ == (RequestModel { uri: uri@, ..old(self)@ }),
            *final(self) == *final(request),
    {
        self.uri = uri;
        self
    }

    /// A copy of the body.
    pub fn body(&mut self) -> (body: Vec<u8>)
        ensures
            body@ == old(self)@.body,
            *final(self) == *old(self),
    {
        self.body.clone()
    }

    /// Sets the body to the UTF-8 form of `body`, and the content length to
    /// the number of its bytes.
    pub fn set_body(&mut self, body: String) -> (request: &mut Self)
        ensures
            request@ == (RequestModel {
                body: encode_utf8(body@),
                content_length: encode_utf8(body@).len() as i64,
                ..old(self)@
            }),
            *final(self) == *final(request),
    {
        let bytes = slice_to_vec(body.as_str().as_bytes());
        self.set_body_bytes(bytes)
    }

    /// Sets the body, and the content length to the number of its bytes.
    pub fn set_body_bytes(&mut self, bytes: Vec<u8>) -> (request: &mut Self)
        ensures
            request@ == (RequestModel {
                body: bytes@,
                content_length: bytes@.len() as i64,
                ..old(self)@
            }),
            *final(self) == *final(request),
    {
        self.body = bytes;
        self.content_length = self.body.len() as i64;
        self
    }

    /// The content length that the request states.
    pub fn content_length(&mut self) -> (content_length: i64)
        ensures
            content_length == old(self)@.content_length,
            *final(self) == *old(self),
    {
        self.content_length
    }

    /// The address that the request came from.
    pub fn remote_ip(&mut self) -> (ip: String)
        ensures
            ip@ == old(self)@.ip,
            *final(self) == *old(self),
    {
        self.ip.clone()
    }

    /// The protocol of the request.
    pub fn protocol(&mut self) -> (protocol: String)
        ensures
            protocol@ == old(self)@.protocol,
            *final(self) == *old(self),
    {
        self.protocol.clone()
    }

    /// The headers of the request.
    pub fn headers(&self) -> (headers: &Headers)
        ensures
            headers.entries() == self@.headers,
    {
        &self.headers
    }

    /// The values of the header `key`, if the request has that header.
    pub fn get_headers(&self, key: &String) -> (values: Option<&HttpStringList>)
        ensures
            match values {
                Some(list) => as_map(self@.headers).contains_key(key@) && list@ == as_map(
                    self@.headers,
                )[key@],
                None => !as_map(self@.headers).contains_key(key@),
            },
    {
        self.headers.get(key)
    }

    /// Sets the header `key` to `value`.  Values that the header had before
    /// are gone.
    pub fn set_headers(&mut self, key: String, value: Vec<String>)
        ensures
            final(self)@ == (RequestModel {
                headers: with_entry(old(self)@.headers, key@, value@.map_values(|s: String| s@)),
                ..old(self)@
            }),
    {
        self.headers.insert(key, HttpStringList { value });
    }
}

} // verus!
