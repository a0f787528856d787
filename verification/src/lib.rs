//! The HTTP signature: the context that a host and a chain of sandboxed
//! guest modules hand to each other, its binary form, and the guest's side
//! of the memory bridge over which that form travels.
//!
//! * `wire` and `schema` say, as mathematics, how values and records lie on
//!   the wire; `wire_proofs` and `laws` prove what holds of that format.
//! * `codec` reads and writes single values; `http_signature` reads and
//!   writes the records; `headers` is the header map that the records hold.
//! * `context`, `request` and `response` make records and give access to
//!   their fields.
//! * `guest` is the bridge and the entry points that a guest builds on;
//!   `runtime` is what a host does with a context.

pub mod codec;
pub mod context;
pub mod guest;
pub mod headers;
pub mod http_signature;
pub mod laws;
pub mod request;
pub mod response;
pub mod runtime;
pub mod schema;
pub mod wire;
pub mod wire_proofs;
