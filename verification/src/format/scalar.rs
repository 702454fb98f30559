//! Scalars: the values that occupy one segment of a frame.

use super::number::{decimal, lemma_number_of_decimal, number_of, parse_number, push_decimal};
use super::text::same;
use vstd::prelude::*;

verus! {

/// Role of a socket connection to the engine.
#[derive(Debug, Clone, Copy, PartialEq, Eq, Structural)]
pub enum ConnectRole {
    /// A global module.
    Global,
    /// A module attached to a channel.
    Channel,
    /// A data source of a channel.
    Play,
    /// A data consumer of a channel.
    Record,
    /// Both a source and a consumer of a channel.
    PlayRec,
}

/// Level of a debug text, passed to the engine unchanged.
pub type DebugLevel = u8;

/// The kinds of scalar that a record may hold.
#[derive(Debug, Clone, Copy, PartialEq, Eq, Structural)]
pub enum Kind {
    /// Arbitrary text.
    Text,
    /// An unsigned number of 64 bits.
    Number,
    /// `true` or `false`.
    Flag,
    /// A [`ConnectRole`].
    Role,
    /// A [`DebugLevel`].
    Level,
}

/// A scalar.
#[derive(Debug, Clone)]
pub enum Scalar {
    /// Arbitrary text.
    Text(String),
    /// An unsigned number of 64 bits.
    Number(u64),
    /// `true` or `false`.
    Flag(bool),
    /// A [`ConnectRole`].
    Role(ConnectRole),
    /// A [`DebugLevel`].
    Level(DebugLevel),
}

/// What a [`Scalar`] holds.
pub enum Atom {
    Text(Seq<char>),
    Number(u64),
    Flag(bool),
    Role(ConnectRole),
    Level(DebugLevel),
}

/// The word that stands for a role.
pub open spec fn role_text(role: ConnectRole) -> Seq<char> {
    match role {
        ConnectRole::Global => "global"@,
        ConnectRole::Channel => "channel"@,
        ConnectRole::Play => "play"@,
        ConnectRole::Record => "record"@,
        ConnectRole::PlayRec => "playrec"@,
    }
}

/// The role that a word stands for, if any.
pub open spec fn role_of(text: Seq<char>) -> Option<ConnectRole> {
    if text == "global"@ {
        Some(ConnectRole::Global)
    } else if text == "channel"@ {
        Some(ConnectRole::Channel)
    } else if text == "play"@ {
        Some(ConnectRole::Play)
    } else if text == "record"@ {
        Some(ConnectRole::Record)
    } else if text == "playrec"@ {
        Some(ConnectRole::PlayRec)
    } else {
        None
    }
}

/// The word that stands for a flag.
pub open spec fn flag_text(flag: bool) -> Seq<char> {
    if flag {
        "true"@
    } else {
        "false"@
    }
}

/// The flag that a word stands for, if any.
pub open spec fn flag_of(text: Seq<char>) -> Option<bool> {
    if text == "true"@ {
        Some(true)
    } else if text == "false"@ {
        Some(false)
    } else {
        None
    }
}

impl Atom {
    /// The kind of the scalar.
    pub open spec fn kind(self) -> Kind {
        match self {
            Atom::Text(_) => Kind::Text,
            Atom::Number(_) => Kind::Number,
            Atom::Flag(_) => Kind::Flag,
            Atom::Role(_) => Kind::Role,
            Atom::Level(_) => Kind::Level,
        }
    }

    /// The text of the scalar, before it is escaped.
    pub open spec fn text(self) -> Seq<char> {
        match self {
            Atom::Text(text) => text,
            Atom::Number(n) => decimal(n as nat),
            Atom::Flag(flag) => flag_text(flag),
            Atom::Role(role) => role_text(role),
            Atom::Level(level) => decimal(level as nat),
        }
    }
}

/// The scalar of the given kind that a text stands for, if any.
pub open spec fn atom_of(kind: Kind, text: Seq<char>) -> Option<Atom> {
    match kind {
        Kind::Text => Some(Atom::Text(text)),
        Kind::Number => match number_of(text, u64::MAX as nat) {
            Some(n) => Some(Atom::Number(n as u64)),
            None => None,
        },
        Kind::Flag => match flag_of(text) {
            Some(flag) => Some(Atom::Flag(flag)),
            None => None,
        },
        Kind::Role => match role_of(text) {
            Some(role) => Some(Atom::Role(role)),
            None => None,
        },
        Kind::Level => match number_of(text, u8::MAX as nat) {
            Some(n) => Some(Atom::Level(n as u8)),
            None => None,
        },
    }
}

/// The scalar of a kind that a field takes when the input ends before it,
/// where the kind has one.
pub open spec fn default_atom(kind: Kind) -> Option<Atom> {
    match kind {
        Kind::Text => Some(Atom::Text(Seq::empty())),
        Kind::Number => Some(Atom::Number(0)),
        Kind::Flag => Some(Atom::Flag(false)),
        Kind::Role => None,
        Kind::Level => Some(Atom::Level(0)),
    }
}

impl View for Scalar {
    type V = Atom;

    open spec fn view(&self) -> Atom {
        match self {
            Scalar::Text(text) => Atom::Text(text@),
            Scalar::Number(n) => Atom::Number(*n),
            Scalar::Flag(flag) => Atom::Flag(*flag),
            Scalar::Role(role) => Atom::Role(*role),
            Scalar::Level(level) => Atom::Level(*level),
        }
    }
}

impl ConnectRole {
    /// The word that stands for the role.
    pub fn as_str(&self) -> (word: &'static str)
        ensures
            word@ == role_text(*self),
    {
        match self {
            ConnectRole::Global => "global",
            ConnectRole::Channel => "channel",
            ConnectRole::Play => "play",
            ConnectRole::Record => "record",
            ConnectRole::PlayRec => "playrec",
        }
    }

    /// The role that a word stands for.
    pub fn parse(word: &str) -> (role: Option<ConnectRole>)
        ensures
            role == role_of(word@),
    {
        if same(word, "global") {
            Some(ConnectRole::Global)
        } else if same(word, "channel") {
            Some(ConnectRole::Channel)
        } else if same(word, "play") {
            Some(ConnectRole::Play)
        } else if same(word, "record") {
            Some(ConnectRole::Record)
        } else if same(word, "playrec") {
            Some(ConnectRole::PlayRec)
        } else {
            None
        }
    }
}

impl Scalar {
    /// The text of the scalar, before it is escaped.
    pub fn to_text(&self) -> (text: String)
        ensures
            text@ == self@.text(),
    {
        match self {
            Scalar::Text(text) => text.clone(),
            Scalar::Number(n) => {
                let mut text = String::new();
                push_decimal(&mut text, *n);
                assert(text@ =~= decimal(*n as nat));
                text
            },
            Scalar::Flag(flag) => {
                if *flag {
                    "true".to_owned()
                } else {
                    "false".to_owned()
                }
            },
            Scalar::Role(role) => role.as_str().to_owned(),
            Scalar::Level(level) => {
                let mut text = String::new();
                push_decimal(&mut text, *level as u64);
                assert(text@ =~= decimal(*level as nat));
                text
            },
        }
    }

    /// The scalar of the given kind that an unescaped text stands for.
    pub fn from_text(kind: Kind, text: &str) -> (r: Option<Scalar>)
        ensures
            match r {
                Some(scalar) => atom_of(kind, text@) == Some(scalar@),
                None => atom_of(kind, text@) is None,
            },
    {
        match kind {
            Kind::Text => Some(Scalar::Text(text.to_owned())),
            Kind::Number => match parse_number(text, u64::MAX) {
                Some(n) => Some(Scalar::Number(n)),
                None => None,
            },
            Kind::Flag => {
                if same(text, "true") {
                    Some(Scalar::Flag(true))
                } else if same(text, "false") {
                    Some(Scalar::Flag(false))
                } else {
                    None
                }
            },
            Kind::Role => match ConnectRole::parse(text) {
                Some(role) => Some(Scalar::Role(role)),
                None => None,
            },
            Kind::Level => match parse_number(text, 255) {
                Some(n) => Some(Scalar::Level(n as u8)),
                None => None,
            },
        }
    }

    /// The scalar of a kind that a field takes when the input ends before it.
    pub fn default_of(kind: Kind) -> (r: Option<Scalar>)
        ensures
            match r {
                Some(scalar) => default_atom(kind) == Some(scalar@),
                None => default_atom(kind) is None,
            },
    {
        match kind {
            Kind::Text => Some(Scalar::Text(String::new())),
            Kind::Number => Some(Scalar::Number(0)),
            Kind::Flag => Some(Scalar::Flag(false)),
            Kind::Role => None,
            Kind::Level => Some(Scalar::Level(0)),
        }
    }
}

/// The text of a scalar stands for that scalar.
pub proof fn lemma_atom_of_text(atom: Atom)
    ensures
        atom_of(atom.kind(), atom.text()) == Some(atom),
{
    match atom {
        Atom::Text(_) => {},
        Atom::Number(n) => {
            lemma_number_of_decimal(n as nat, u64::MAX as nat);
        },
        Atom::Flag(_) => {
            reveal_strlit("true");
            reveal_strlit("false");
        },
        Atom::Role(_) => {
            reveal_strlit("global");
            reveal_strlit("channel");
            reveal_strlit("play");
            reveal_strlit("record");
            reveal_strlit("playrec");
            assert("global"@[0] != "record"@[0]);
            assert("channel"@[0] != "playrec"@[0]);
        },
        Atom::Level(level) => {
            lemma_number_of_decimal(level as nat, u8::MAX as nat);
        },
    }
}

} // verus!
