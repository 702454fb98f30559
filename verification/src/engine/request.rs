//! The guard of a message that awaits its acknowledgement.

use crate::format::message::MessageReq;
use crate::format::record::Record;
use crate::format::shape::Datum;
use std::ops::Deref;
use vstd::prelude::*;

verus! {

/// A request to process a message. It _must_ be acknowledged, or the message
/// blocks the engine: the only way out of a request is to hand it to
/// [`ack`](crate::engine::ack).
#[derive(Debug)]
#[must_use]
pub struct Request {
    inner: MessageReq,
}

/// Short name of a [`Request`].
pub type Req = Request;

impl View for Request {
    type V = Datum;

    closed spec fn view(&self) -> Datum {
        self.inner.datum()
    }
}

impl Request {
    /// The request to process the given message.
    pub fn new(inner: MessageReq) -> (request: Request)
        ensures
            request@ == inner.datum(),
    {
        Request { inner }
    }

    /// The message, out of its guard.
    pub fn into_inner(self) -> (inner: MessageReq)
        ensures
            inner.datum() == self@,
    {
        self.inner
    }

    /// The message, to be changed while it is processed.
    pub fn message_mut(&mut self) -> (inner: &mut MessageReq)
        ensures
            inner.datum() == old(self)@,
            final(self)@ == final(inner).datum(),
    {
        &mut self.inner
    }
}

impl Deref for Request {
    type Target = MessageReq;

    fn deref(&self) -> (inner: &MessageReq)
        ensures
            inner.datum() == self@,
    {
        &self.inner
    }
}

} // verus!
