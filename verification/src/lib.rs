//! The core of a Quote-of-the-Day service.
//!
//! A server loads a fixed list of quotes and answers every connection and
//! every datagram with the quote of the current day. This crate holds what
//! such a server computes and decides, each part with a proved contract:
//!
//! - `quote`: quote records and the non-empty, ordered set of them;
//! - `source`: the quotes source, one `text|attribution` record per line;
//! - `select`: the index of the day's quote;
//! - `wire`: the bytes of a reply;
//! - `respond`: the reply to one request;
//! - `server`: the two service loops and what each does on an outcome;
//! - `config`: the command line.
//!
//! Sockets, files and threads are left to the program around it.

pub mod config;
pub mod quote;
pub mod respond;
pub mod select;
pub mod server;
pub mod source;
pub mod std_specs;
pub mod wire;
