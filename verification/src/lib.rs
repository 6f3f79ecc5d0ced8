//! A minimal HTTP/1.1 exchange: one request in, one response out.
//!
//! The crate holds the rules of the exchange and proves them: how the bytes
//! of a request are parsed, which response a request gets, how a response is
//! laid out on the wire, and in which order a connection reads, sends and
//! stores.  It touches no socket and no file: a caller performs each
//! [`connection::Action`] and reports back with an [`connection::Event`].

pub mod text;

pub mod request;
pub mod grammar;
pub mod parser;
pub mod response;
pub mod router;
pub mod connection;
pub mod laws;
