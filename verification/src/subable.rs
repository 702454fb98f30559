//! The hub that shares one stream of inbound frames among the callers that
//! subscribed to a topic.
//!
//! The hub holds the topics that are subscribed. It decides, for a frame at
//! the head of the stream and a subscription that is polled, whether that
//! subscription takes the frame; reading the stream, waking tasks and handing
//! frames over is left to the caller.

use crate::engine::topic::{classify, Label, Topic};
use vstd::prelude::*;

pub mod sub;

pub use sub::{poll, Head, Move, Peek, Step, Sub, Subed};

verus! {

/// The topic under which a frame is handed out: its own topic, but for the
/// answer to a message that no subscription awaits, which is a message handed
/// to its watchers.
pub open spec fn route(subscribed: Set<Label>, frame: Seq<char>) -> Label {
    let topic = classify(frame);
    if topic is MessageAck && !subscribed.contains(topic) {
        Label::Watch
    } else {
        topic
    }
}

/// The topics of the given slots.
pub open spec fn topics(slots: Seq<Topic>) -> Set<Label> {
    Set::new(|label: Label| exists|i: int| 0 <= i < slots.len() && (#[trigger] slots[i])@ == label)
}

/// The subscriptions over one stream of frames.
#[derive(Debug)]
pub struct Subscriber {
    slots: Vec<Topic>,
}

impl View for Subscriber {
    type V = Set<Label>;

    closed spec fn view(&self) -> Set<Label> {
        topics(self.slots@)
    }
}

impl Subscriber {
    /// A topic has one slot at most.
    #[verifier::type_invariant]
    spec fn distinct(self) -> bool {
        forall|i: int, j: int|
            0 <= i < j < self.slots@.len() ==> (#[trigger] self.slots@[i])@ != (#[trigger] self.slots@[j])@
    }

    /// A hub without subscriptions.
    pub fn new() -> (hub: Subscriber)
        ensures
            hub@ == Set::<Label>::empty(),
    {
        let hub = Subscriber { slots: Vec::new() };
        assert(topics(hub.slots@) =~= Set::empty());
        hub
    }

    /// The index of the slot of the topic, or the number of slots if it has
    /// none.
    fn position(&self, topic: &Topic) -> (at: usize)
        ensures
            at <= self.slots@.len(),
            at < self.slots@.len() ==> self.slots@[at as int]@ == topic@,
            at == self.slots@.len() ==> !self@.contains(topic@),
    {
        let mut at: usize = 0;
        while at < self.slots.len()
            invariant
                at <= self.slots.len(),
                forall|j: int| 0 <= j < at ==> (#[trigger] self.slots@[j])@ != topic@,
            decreases self.slots.len() - at,
        {
            if self.slots[at] == *topic {
                return at;
            }
            at += 1;
        }
        at
    }

    /// Whether the topic is subscribed.
    pub fn is_subscribed(&self, topic: &Topic) -> (r: bool)
        ensures
            r == self@.contains(topic@),
    {
        let at = self.position(topic);
        at < self.slots.len()
    }

    /// Subscribe to a topic. A topic has one subscription at most: to
    /// subscribe to a topic that is subscribed is a defect of the caller.
    pub fn subscribe(&mut self, topic: Topic) -> (sub: Sub)
        requires
            !old(self)@.contains(topic@),
        ensures
            final(self)@ == old(self)@.insert(topic@),
            sub@ == topic@,
    {
        proof {
            use_type_invariant(&*self);
        }
        let sub = Sub::new(topic.clone());
        let mut slots: Vec<Topic> = Vec::new();
        std::mem::swap(&mut self.slots, &mut slots);
        let ghost before = slots@;
        slots.push(topic);
        proof {
            assert forall|label: Label| topics(slots@).contains(label) == topics(before).insert(
                topic@,
            ).contains(label) by {
                if topics(slots@).contains(label) {
                    let i = choose|i: int| 0 <= i < slots@.len() && (#[trigger] slots@[i])@ == label;
                    if i < before.len() {
                        assert(before[i]@ == label);
                    }
                }
                if topics(before).contains(label) {
                    let i = choose|i: int| 0 <= i < before.len() && (#[trigger] before[i])@ == label;
                    assert(slots@[i]@ == label);
                }
                if label == topic@ {
                    assert(slots@[before.len() as int]@ == label);
                }
            }
            assert(topics(slots@) =~= topics(before).insert(topic@));
            assert forall|i: int, j: int| 0 <= i < j < slots@.len() implies (#[trigger] slots@[i])@ != (
            #[trigger] slots@[j])@ by {
                if j == before.len() {
                    assert(before[i]@ != topic@);
                }
            }
        }
        self.slots = slots;
        sub
    }

    /// End a subscription: its slot is removed.
    pub fn unsubscribe(&mut self, sub: Sub)
        ensures
            final(self)@ == old(self)@.remove(sub@),
    {
        proof {
            use_type_invariant(&*self);
        }
        let at = self.position(sub.topic());
        if at < self.slots.len() {
            let mut slots: Vec<Topic> = Vec::new();
            std::mem::swap(&mut self.slots, &mut slots);
            let ghost before = slots@;
            slots.remove(at);
            proof {
                assert forall|label: Label| topics(slots@).contains(label) == topics(before).remove(
                    sub@,
                ).contains(label) by {
                    if topics(slots@).contains(label) {
                        let i = choose|i: int| 0 <= i < slots@.len() && (#[trigger] slots@[i])@ == label;
                        if i < at {
                            assert(before[i]@ == label);
                        } else {
                            assert(before[i + 1]@ == label);
                        }
                    }
                    if topics(before).contains(label) && label != sub@ {
                        let i = choose|i: int| 0 <= i < before.len() && (#[trigger] before[i])@ == label;
                        if i < at {
                            assert(slots@[i]@ == label);
                        } else {
                            assert(slots@[i - 1]@ == label);
                        }
                    }
                }
                assert(topics(slots@) =~= topics(before).remove(sub@));
            }
            self.slots = slots;
        } else {
            assert(self@.remove(sub@) =~= self@);
        }
    }

    /// End every subscription, so that each of them finds its slot gone when
    /// it is polled next.
    pub fn unsubscribe_all(&mut self)
        ensures
            final(self)@ == Set::<Label>::empty(),
    {
        self.slots = Vec::new();
        assert(topics(self.slots@) =~= Set::empty());
    }

    /// The topic under which a frame is handed out.
    pub fn route(&self, frame: &str) -> (topic: Topic)
        ensures
            topic@ == route(self@, frame@),
    {
        let topic = Topic::topic(frame);
        match topic {
            Topic::MessageAck(_) => {
                if self.is_subscribed(&topic) {
                    topic
                } else {
                    Topic::Watch
                }
            },
            _ => topic,
        }
    }
}

/// Unique routing: of two subscriptions to different topics, a frame of the
/// topic of the first is taken by the first, as a match, and is left in the
/// stream by the second, which wakes the first. So the first observes the
/// frame once, when it takes it, and the second never does.
pub proof fn lemma_unique_routing(subscribed: Set<Label>, a: Label, b: Label, frame: Seq<char>)
    requires
        subscribed.contains(a),
        subscribed.contains(b),
        a != b,
        classify(frame) == a,
    ensures
        poll(a, subscribed, Head::Frame(frame)) == Move::Match,
        poll(b, subscribed, Head::Frame(frame)) == Move::Wake(a),
        poll(a, subscribed, Head::Frame(frame)).takes(),
        !poll(b, subscribed, Head::Frame(frame)).takes(),
{
}

/// A frame whose topic is subscribed, after the fallback, is taken by the
/// subscription to that topic and by no other.
pub proof fn lemma_one_taker(subscribed: Set<Label>, own: Label, frame: Seq<char>)
    requires
        subscribed.contains(own),
        subscribed.contains(route(subscribed, frame)),
    ensures
        poll(own, subscribed, Head::Frame(frame)).takes() <==> own == route(subscribed, frame),
{
}

/// A frame whose topic is not subscribed, after the fallback, is taken by
/// whichever subscription is polled, as no match.
pub proof fn lemma_default_taker(subscribed: Set<Label>, own: Label, frame: Seq<char>)
    requires
        subscribed.contains(own),
        !subscribed.contains(route(subscribed, frame)),
    ensures
        poll(own, subscribed, Head::Frame(frame)) == Move::NoMatch,
{
}

/// Fallback delivery: the answer to a message that no subscription awaits is
/// handed out as a watched message. With a subscription to the watched
/// messages it goes to that subscription; without one it goes to whichever
/// subscription is polled, as no match.
pub proof fn lemma_fallback_delivery(subscribed: Set<Label>, own: Label, frame: Seq<char>)
    requires
        classify(frame) is MessageAck,
        !subscribed.contains(classify(frame)),
        subscribed.contains(own),
    ensures
        route(subscribed, frame) == Label::Watch,
        subscribed.contains(Label::Watch) && own == Label::Watch ==> poll(
            own,
            subscribed,
            Head::Frame(frame),
        ) == Move::Match,
        subscribed.contains(Label::Watch) && own != Label::Watch ==> poll(
            own,
            subscribed,
            Head::Frame(frame),
        ) == Move::Wake(Label::Watch),
        !subscribed.contains(Label::Watch) ==> poll(own, subscribed, Head::Frame(frame))
            == Move::NoMatch,
{
}

/// The answer to a message that a subscription awaits goes to that
/// subscription, whether or not the watched messages are subscribed.
pub proof fn lemma_awaited_answer(subscribed: Set<Label>, frame: Seq<char>)
    requires
        classify(frame) is MessageAck,
        subscribed.contains(classify(frame)),
    ensures
        poll(classify(frame), subscribed, Head::Frame(frame)) == Move::Match,
{
}

/// Once every subscription was ended, each of them is over when it is polled
/// next, whatever the stream shows.
pub proof fn lemma_over_after_unsubscribe_all(own: Label, head: Head)
    ensures
        poll(own, Set::<Label>::empty(), head) == Move::End,
{
}

/// A frame that a subscription took from the stream.
pub struct Delivery {
    /// The topic of the subscription.
    pub to: Label,
    /// The frame.
    pub frame: Seq<char>,
    /// Whether the frame is of the topic of the subscription.
    pub matched: bool,
}

/// What a run of polls hands out: the subscriptions to the topics `polls` are
/// polled in turn, over a stream that holds the frames `stream`, while the
/// subscriptions stay as they are. A poll that takes the head of the stream
/// is a delivery; any other poll leaves the stream as it is.
pub open spec fn deliveries(subscribed: Set<Label>, stream: Seq<Seq<char>>, polls: Seq<Label>) -> Seq<
    Delivery,
>
    decreases polls.len(),
{
    if polls.len() == 0 || stream.len() == 0 {
        Seq::empty()
    } else {
        let step = poll(polls[0], subscribed, Head::Frame(stream[0]));
        if step.takes() {
            seq![Delivery { to: polls[0], frame: stream[0], matched: step is Match }] + deliveries(
                subscribed,
                stream.drop_first(),
                polls.drop_first(),
            )
        } else {
            deliveries(subscribed, stream, polls.drop_first())
        }
    }
}

/// Each frame is taken once, and by the right subscription: whatever the
/// order in which the subscriptions are polled, the frames are handed out in
/// the order of the stream, each of them once. A frame whose topic is
/// subscribed goes to the subscription to that topic, as a match, and to no
/// other; a frame whose topic is not subscribed is no match for the
/// subscription that takes it.
pub proof fn lemma_each_frame_once(subscribed: Set<Label>, stream: Seq<Seq<char>>, polls: Seq<Label>)
    ensures
        deliveries(subscribed, stream, polls).len() <= stream.len(),
        forall|i: int|
            0 <= i < deliveries(subscribed, stream, polls).len() ==> {
                let got = #[trigger] deliveries(subscribed, stream, polls)[i];
                &&& got.frame == stream[i]
                &&& subscribed.contains(got.to)
                &&& got.matched <==> got.to == route(subscribed, stream[i])
                &&& subscribed.contains(route(subscribed, stream[i])) ==> got.matched
            },
    decreases polls.len(),
{
    if polls.len() > 0 && stream.len() > 0 {
        let step = poll(polls[0], subscribed, Head::Frame(stream[0]));
        let all = deliveries(subscribed, stream, polls);
        if step.takes() {
            let rest = deliveries(subscribed, stream.drop_first(), polls.drop_first());
            lemma_each_frame_once(subscribed, stream.drop_first(), polls.drop_first());
            assert forall|i: int| 0 <= i < all.len() implies {
                let got = #[trigger] all[i];
                &&& got.frame == stream[i]
                &&& subscribed.contains(got.to)
                &&& got.matched <==> got.to == route(subscribed, stream[i])
                &&& subscribed.contains(route(subscribed, stream[i])) ==> got.matched
            } by {
                if i > 0 {
                    assert(all[i] == rest[i - 1]);
                    assert(stream[i] == stream.drop_first()[i - 1]);
                }
            }
        } else {
            lemma_each_frame_once(subscribed, stream, polls.drop_first());
        }
    }
}

} // verus!
