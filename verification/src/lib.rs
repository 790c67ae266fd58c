//! A verified core for a minimal HTTP/1.1 server with a fixed route table:
//! a static root response, string echo, client user-agent reflection, and
//! file retrieval and creation under a configured serving directory.
//!
//! This crate holds everything that can be stated and proved: reading a
//! request off a byte buffer ([`request`]), the route table ([`router`]),
//! the route handlers ([`handlers`]), and serializing a response back into
//! bytes ([`response`]). The laws the routes obey are proved in [`laws`].
//! Listening, per-connection threads and the filesystem work stay outside;
//! a caller performs the file action that [`handlers::Action`] names and
//! builds the response from its outcome with the verified functions here.

pub mod bytes;
pub mod handlers;
pub mod headers;
pub mod laws;
pub mod num;
pub mod request;
pub mod response;
pub mod router;
pub mod wire;
