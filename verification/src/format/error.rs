//! Errors of the wire format.

use super::upcode::DecodeError;
use vstd::prelude::*;

verus! {

/// An error that may occur when (de-)serializing messages.
#[derive(Debug, Clone, Copy, PartialEq, Eq, Structural)]
pub enum Error {
    /// A value does not have the form that its declared shape asks for.
    Reflect,
    /// The message didn't include a tag.
    MissingTag,
    /// The message tag didn't match the tag of the record.
    MismatchedTag,
    /// A value was expected, but the input is exhausted.
    MissingValue,
    /// A segment of a map is not of the form `<key>=<value>`.
    MisformedMap,
    /// A `%` in a value is followed by a character that is no upcode.
    InvalidUpcode(DecodeError),
}

} // verus!
