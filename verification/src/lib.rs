//! Client-side adapter for the Yate external-module protocol.
//!
//! The protocol is a newline-delimited, colon-separated, `%`-escaped text protocol
//! spoken between an external module and a running Yate telephony engine.
//! This crate holds the parts of the adapter that compute: the wire format,
//! the classification of inbound frames and the routing decisions.

pub mod engine;
pub mod format;
pub mod subable;

pub use engine::{Error, Req, Request};
