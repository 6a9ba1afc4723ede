//! Core of a forward proxy that splits the first TLS handshake record of a
//! tunnelled connection into several smaller records.
//!
//! The crate holds the decisions of the proxy as verified functions on plain
//! values: the request-line parser, the resolver cache, the record
//! fragmenter, and the state machines of one forwarding direction and of one
//! connection. Sockets and tasks belong to the program that drives them.

pub mod args;
pub mod dns;
pub mod forward;
pub mod fragment;
pub mod handler;
pub mod http;
pub mod text;
pub mod uri;
