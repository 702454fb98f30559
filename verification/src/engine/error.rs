//! Errors of the conversation with the engine.

use vstd::prelude::*;

verus! {

/// An error that may occur when interacting with the engine.
#[derive(Debug, Clone, Copy, PartialEq, Eq, Structural)]
pub enum Error {
    /// An error occurred while (de)-serializing messages.
    Format(crate::format::error::Error),
    /// The data stream was closed before expected.
    UnexpectedEof,
}

/// What an interaction with the engine gives: a value, or an [`Error`].
pub type Result<T, E = Error> = std::result::Result<T, E>;

} // verus!
