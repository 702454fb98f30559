//! A subscription to one topic, and what a poll of it decides.

use super::{route, Subscriber};
use crate::engine::topic::{Label, Topic};
use vstd::prelude::*;

verus! {

/// A frame that a subscription was handed.
#[derive(Debug, Clone, PartialEq, Eq)]
pub enum Subed<I> {
    /// A frame of the topic of the subscription.
    Yes(I),
    /// A frame of a topic that has no subscription: the subscription that
    /// was polled has to give the default response in everybody's place.
    No(I),
}

/// What the stream shows at its head.
#[derive(Debug, Clone, Copy)]
pub enum Peek<'a> {
    /// The next frame.
    Frame(&'a str),
    /// The stream failed.
    Failed,
    /// The stream has ended.
    End,
}

/// What a poll of a subscription decides.
#[derive(Debug)]
pub enum Step {
    /// The subscription is over: there are no more items.
    End,
    /// Take the failure from the stream and hand it to the caller.
    Fail,
    /// Take the frame from the stream and hand it to the caller as
    /// [`Subed::Yes`].
    Match,
    /// Take the frame from the stream and hand it to the caller as
    /// [`Subed::No`].
    NoMatch,
    /// Leave the frame in the stream, wake the subscription of this topic
    /// and stay pending.
    Wake(Topic),
}

/// What a [`Peek`] holds.
pub enum Head {
    Frame(Seq<char>),
    Failed,
    End,
}

/// What a [`Step`] holds.
pub enum Move {
    End,
    Fail,
    Match,
    NoMatch,
    Wake(Label),
}

impl<'a> View for Peek<'a> {
    type V = Head;

    open spec fn view(&self) -> Head {
        match self {
            Peek::Frame(frame) => Head::Frame(frame@),
            Peek::Failed => Head::Failed,
            Peek::End => Head::End,
        }
    }
}

impl View for Step {
    type V = Move;

    open spec fn view(&self) -> Move {
        match self {
            Step::End => Move::End,
            Step::Fail => Move::Fail,
            Step::Match => Move::Match,
            Step::NoMatch => Move::NoMatch,
            Step::Wake(topic) => Move::Wake(topic@),
        }
    }
}

impl Move {
    /// Whether the poll takes the head of the stream.
    pub open spec fn takes(self) -> bool {
        self is Fail || self is Match || self is NoMatch
    }
}

/// What a poll of the subscription to `own` decides.
///
/// A subscription whose slot is gone is over. Else, at the end of the stream
/// it is over too, and a failure of the stream is handed to it. A frame is
/// handed out under its topic: the subscription takes a frame of its own
/// topic, wakes the subscription of another topic that is subscribed, and
/// takes a frame of a topic that nobody subscribed to, to give the default
/// response.
pub open spec fn poll(own: Label, subscribed: Set<Label>, head: Head) -> Move {
    if !subscribed.contains(own) {
        Move::End
    } else {
        match head {
            Head::End => Move::End,
            Head::Failed => Move::Fail,
            Head::Frame(frame) => {
                let topic = route(subscribed, frame);
                if topic == own {
                    Move::Match
                } else if subscribed.contains(topic) {
                    Move::Wake(topic)
                } else {
                    Move::NoMatch
                }
            },
        }
    }
}

/// A subscription to one topic.
#[derive(Debug)]
pub struct Sub {
    topic: Topic,
}

impl View for Sub {
    type V = Label;

    closed spec fn view(&self) -> Label {
        self.topic@
    }
}

impl Sub {
    pub(super) fn new(topic: Topic) -> (sub: Sub)
        ensures
            sub@ == topic@,
    {
        Sub { topic }
    }

    /// The topic of the subscription.
    pub fn topic(&self) -> (topic: &Topic)
        ensures
            topic@ == self@,
    {
        &self.topic
    }

    /// Decide what a poll of this subscription does, given the head of the
    /// stream.
    pub fn poll_next(&self, hub: &Subscriber, peeked: Peek<'_>) -> (step: Step)
        ensures
            step@ == poll(self@, hub@, peeked@),
    {
        if !hub.is_subscribed(&self.topic) {
            return Step::End;
        }
        match peeked {
            Peek::End => Step::End,
            Peek::Failed => Step::Fail,
            Peek::Frame(frame) => {
                let topic = hub.route(frame);
                if topic == self.topic {
                    Step::Match
                } else if hub.is_subscribed(&topic) {
                    Step::Wake(topic)
                } else {
                    Step::NoMatch
                }
            },
        }
    }
}

} // verus!
