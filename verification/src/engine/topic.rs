//! Topics: the keys by which an inbound frame finds the caller that awaits it.

use crate::format::handler::{InstallAck, UninstallAck};
use crate::format::local::SetLocalAck;
use crate::format::message::{MessageAck, MessageReq};
use crate::format::control::QuitAck;
use crate::format::record::{from_str, read};
use crate::format::shape::Datum;
use crate::format::text::same;
use crate::format::watcher::{UnwatchAck, WatchAck};
use vstd::prelude::*;

verus! {

/// The topic of a frame.
#[derive(Debug, Hash)]
pub enum Topic {
    /// The answer to the request to install the handler of this name.
    InstallAck(String),
    /// The answer to the request to remove the handler of this name.
    UninstallAck(String),
    /// The answer to the request to install the watcher of this name.
    WatchAck(String),
    /// The answer to the request to remove the watcher of this name.
    UnwatchAck(String),
    /// The answer to the request to change or query the local parameter of
    /// this name.
    SetLocalAck(String),
    /// A message from the engine, to be processed.
    Message,
    /// The answer to the message of this id.
    MessageAck(String),
    /// A message that was processed, handed to its watchers.
    Watch,
    /// The answer to the request to quit.
    QuitAck,
    /// Anything else.
    Other,
}

/// What a [`Topic`] holds.
pub enum Label {
    InstallAck(Seq<char>),
    UninstallAck(Seq<char>),
    WatchAck(Seq<char>),
    UnwatchAck(Seq<char>),
    SetLocalAck(Seq<char>),
    Message,
    MessageAck(Seq<char>),
    Watch,
    QuitAck,
    Other,
}

impl View for Topic {
    type V = Label;

    open spec fn view(&self) -> Label {
        match self {
            Topic::InstallAck(name) => Label::InstallAck(name@),
            Topic::UninstallAck(name) => Label::UninstallAck(name@),
            Topic::WatchAck(name) => Label::WatchAck(name@),
            Topic::UnwatchAck(name) => Label::UnwatchAck(name@),
            Topic::SetLocalAck(name) => Label::SetLocalAck(name@),
            Topic::Message => Label::Message,
            Topic::MessageAck(id) => Label::MessageAck(id@),
            Topic::Watch => Label::Watch,
            Topic::QuitAck => Label::QuitAck,
            Topic::Other => Label::Other,
        }
    }
}

impl Clone for Topic {
    fn clone(&self) -> (copy: Topic)
        ensures
            copy@ == self@,
    {
        match self {
            Topic::InstallAck(name) => Topic::InstallAck(name.clone()),
            Topic::UninstallAck(name) => Topic::UninstallAck(name.clone()),
            Topic::WatchAck(name) => Topic::WatchAck(name.clone()),
            Topic::UnwatchAck(name) => Topic::UnwatchAck(name.clone()),
            Topic::SetLocalAck(name) => Topic::SetLocalAck(name.clone()),
            Topic::Message => Topic::Message,
            Topic::MessageAck(id) => Topic::MessageAck(id.clone()),
            Topic::Watch => Topic::Watch,
            Topic::QuitAck => Topic::QuitAck,
            Topic::Other => Topic::Other,
        }
    }
}

impl PartialEq for Topic {
    fn eq(&self, other: &Topic) -> (r: bool) {
        match self {
            Topic::InstallAck(a) => match other {
                Topic::InstallAck(b) => same(a.as_str(), b.as_str()),
                _ => false,
            },
            Topic::UninstallAck(a) => match other {
                Topic::UninstallAck(b) => same(a.as_str(), b.as_str()),
                _ => false,
            },
            Topic::WatchAck(a) => match other {
                Topic::WatchAck(b) => same(a.as_str(), b.as_str()),
                _ => false,
            },
            Topic::UnwatchAck(a) => match other {
                Topic::UnwatchAck(b) => same(a.as_str(), b.as_str()),
                _ => false,
            },
            Topic::SetLocalAck(a) => match other {
                Topic::SetLocalAck(b) => same(a.as_str(), b.as_str()),
                _ => false,
            },
            Topic::Message => match other {
                Topic::Message => true,
                _ => false,
            },
            Topic::MessageAck(a) => match other {
                Topic::MessageAck(b) => same(a.as_str(), b.as_str()),
                _ => false,
            },
            Topic::Watch => match other {
                Topic::Watch => true,
                _ => false,
            },
            Topic::QuitAck => match other {
                Topic::QuitAck => true,
                _ => false,
            },
            Topic::Other => match other {
                Topic::Other => true,
                _ => false,
            },
        }
    }
}

impl vstd::std_specs::cmp::PartialEqSpecImpl for Topic {
    open spec fn obeys_eq_spec() -> bool {
        true
    }

    open spec fn eq_spec(&self, other: &Topic) -> bool {
        self@ == other@
    }
}

impl Eq for Topic {

}

/// The text in the field `index` of a record.
pub open spec fn text_at(record: Datum, index: int) -> Seq<char> {
    record->Struct_0[index]->Scalar_0->Text_0
}

/// The topic of a frame: that of the first of these records that the frame
/// can be read as, with the name or the id that correlates it; or
/// [`Label::Other`] if it can be read as none of them.
pub open spec fn classify(frame: Seq<char>) -> Label {
    if read::<InstallAck>(frame) is Ok {
        Label::InstallAck(text_at(read::<InstallAck>(frame)->Ok_0, 1))
    } else if read::<UninstallAck>(frame) is Ok {
        Label::UninstallAck(text_at(read::<UninstallAck>(frame)->Ok_0, 1))
    } else if read::<WatchAck>(frame) is Ok {
        Label::WatchAck(text_at(read::<WatchAck>(frame)->Ok_0, 0))
    } else if read::<UnwatchAck>(frame) is Ok {
        Label::UnwatchAck(text_at(read::<UnwatchAck>(frame)->Ok_0, 0))
    } else if read::<SetLocalAck>(frame) is Ok {
        Label::SetLocalAck(text_at(read::<SetLocalAck>(frame)->Ok_0, 0))
    } else if read::<MessageReq>(frame) is Ok {
        Label::Message
    } else if read::<MessageAck>(frame) is Ok {
        Label::MessageAck(text_at(read::<MessageAck>(frame)->Ok_0, 0))
    } else if read::<QuitAck>(frame) is Ok {
        Label::QuitAck
    } else {
        Label::Other
    }
}

impl Topic {
    /// The topic of a frame.
    pub fn topic(input: &str) -> (topic: Topic)
        ensures
            topic@ == classify(input@),
    {
        if let Ok(msg) = from_str::<InstallAck>(input) {
            Topic::InstallAck(msg.name)
        } else if let Ok(msg) = from_str::<UninstallAck>(input) {
            Topic::UninstallAck(msg.name)
        } else if let Ok(msg) = from_str::<WatchAck>(input) {
            Topic::WatchAck(msg.name)
        } else if let Ok(msg) = from_str::<UnwatchAck>(input) {
            Topic::UnwatchAck(msg.name)
        } else if let Ok(msg) = from_str::<SetLocalAck>(input) {
            Topic::SetLocalAck(msg.name)
        } else if from_str::<MessageReq>(input).is_ok() {
            Topic::Message
        } else if let Ok(msg) = from_str::<MessageAck>(input) {
            Topic::MessageAck(msg.id)
        } else if from_str::<QuitAck>(input).is_ok() {
            Topic::QuitAck
        } else {
            Topic::Other
        }
    }
}

} // verus!
