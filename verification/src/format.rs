//! Format of messages in the Yate Engine external module protocol.
//!
//! Every command is sent on its own newline delimited line. A line is a tag
//! followed by colon separated values; values are `%`-escaped, the tag and the
//! delimiting colons are not.
//!
//! Command direction is annotated in the documentation of the records:
//! - **(>)**: application to engine
//! - **(<)**: engine to application
//! - **(~)**: both directions

pub mod control;
pub mod de;
pub mod error;
pub mod field;
pub mod handler;
pub mod laws;
pub mod local;
pub mod message;
pub mod number;
pub mod params;
pub mod record;
pub mod round_trip;
pub mod scalar;
pub mod ser;
pub mod shape;
pub mod text;
pub mod upcode;
pub mod watcher;

pub use control::{Connect, ErrorIn, Output, Quit, QuitAck};
pub use de::Deserializer;
pub use error::Error;
pub use handler::{Install, InstallAck, InstallReq, Uninstall, UninstallAck, UninstallReq};
pub use local::{SetLocal, SetLocalAck, SetLocalReq};
pub use message::{Message, MessageAck, MessageReq};
pub use params::Params;
pub use record::{frame, from_str, read, to_string, Record};
pub use scalar::{ConnectRole, DebugLevel};
pub use ser::Serializer;
pub use upcode::{decode, encode, DecodeError};
pub use watcher::{Unwatch, UnwatchAck, UnwatchReq, Watch, WatchAck, WatchReq};
use vstd::prelude::*;

verus! {

/// What (de-)serializing gives: a value, or an [`Error`].
pub type Result<T, E = Error> = std::result::Result<T, E>;

} // verus!
