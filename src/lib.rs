//! A small HTTP request-dispatch core: an exact-match route table, a bounded
//! body reader, a per-chunk streaming transform, a response builder and the
//! example endpoints that are wired on top of them.
//!
//! The asynchronous HTTP engine stays outside: it hands this library plain
//! values (method and path tokens, body chunks) and turns the responses it
//! gets back into frames on the wire.
pub mod body;
pub mod error;
pub mod handlers;
pub mod json;
pub mod response;
pub mod router;
pub mod transform;
