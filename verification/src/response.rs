//! Reading and changing a response.

use crate::headers::Headers;
use crate::http_signature::{HttpResponse, HttpStringList};
use crate::schema::{as_map, with_entry, ResponseModel};
use vstd::prelude::*;
use vstd::slice::slice_to_vec;
use vstd::utf8::*;

verus! {

/// A response, by its short name.
pub type Response = HttpResponse;

impl Response {
    /// The status code of the response.
    pub fn status_code(&mut self) -> (status_code: i32)
        ensures
            status_code == old(self)@.status_code,
            *final(self) == *old(self),
    {
        self.status_code
    }

    /// A copy of the body.
    pub fn body(&mut self) -> (body: Vec<u8>)
        ensures
            body@ == old(self)@.body,
            *final(self) == *old(self),
    {
        self.body.clone()
    }

    /// Sets the body to the UTF-8 form of `body`.
    pub fn set_body(&mut self, body: String) -> (response: &mut Self)
        ensures
            response@ == (ResponseModel { body: encode_utf8(body@), ..old(self)@ }),
            *final(self) == *final(response),
    {
        self.body = slice_to_vec(body.as_str().as_bytes());
        self
    }

    /// Sets the body.
    pub fn set_body_bytes(&mut self, bytes: Vec<u8>) -> (response: &mut Self)
        ensures
            response@ == (ResponseModel { body: bytes@, ..old(self)@ }),
            *final(self) == *final(response),
    {
        self.body = bytes;
        self
    }

    /// The headers of the response.
    pub fn headers(&self) -> (headers: &Headers)
        ensures
            headers.entries() == self@.headers,
    {
        &self.headers
    }

    /// The values of the header `key`, if the response has that header.
    pub fn get_headers(&self, key: &String) -> (values: Option<&HttpStringList>)
        ensures
            match values {
                Some(list) => as_map(self@.headers).contains_key(key@) && list@ == as_map(
                    self@.headers,
                )[key@],
                None => !as_map(self@.headers).contains_key(key@),
            },
    {
        self.headers.get(key)
    }

    /// Sets the header `key` to `value`.  Values that the header had before
    /// are gone.
    pub fn set_headers(&mut self, key: String, value: Vec<String>)
        ensures
            final(self)@ == (ResponseModel {
                headers: with_entry(old(self)@.headers, key@, value@.map_values(|s: String| s@)),
                ..old(self)@
            }),
    {
        self.headers.insert(key, HttpStringList { value });
    }
}

} // verus!
