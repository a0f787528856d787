//! The unit of exchange: one request and the response to it.

use crate::headers::Headers;
use crate::http_signature::{HttpContext, HttpRequest, HttpResponse};
use crate::schema::{ContextModel, RequestModel, ResponseModel};
use vstd::prelude::*;

verus! {

/// A context, by its short name.
pub type Context = HttpContext;

/// The context in which every text, body and header map is empty and every
/// number is zero.
pub open spec fn empty_context() -> ContextModel {
    ContextModel {
        request: RequestModel {
            uri: Seq::empty(),
            method: Seq::empty(),
            content_length: 0,
            protocol: Seq::empty(),
            ip: Seq::empty(),
            body: Seq::empty(),
            headers: Seq::empty(),
        },
        response: ResponseModel { status_code: 0, body: Seq::empty(), headers: Seq::empty() },
    }
}

/// A fresh context, with nothing in it.
pub fn new() -> (context: Context)
    ensures
        context@ == empty_context(),
{
    Context {
        request: HttpRequest {
            headers: Headers::new(),
            uri: String::new(),
            method: String::new(),
            content_length: 0,
            protocol: String::new(),
            ip: String::new(),
            body: Vec::new(),
        },
        response: HttpResponse { headers: Headers::new(), status_code: 0, body: Vec::new() },
    }
}

} // verus!
