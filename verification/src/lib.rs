//! A small static-content HTTP/HTTPS server library.
//!
//! The crate holds the verified core of the server: the request-head
//! parser, the query-string and header maps, the virtual-host router
//! with its path-containment check, the response formatting, the MIME
//! lookup, the certificate-resolver model and the TLS listener's
//! control logic.  All socket, file and TLS plumbing lives outside,
//! in the accompanying application crate, which feeds this library
//! plain values and carries its answers back to the wire.

pub mod config;
pub mod identity;
pub mod kvmap;
pub mod listener;
pub mod mimetype;
pub mod parser;
pub mod response;
pub mod router;
pub mod text;
