//! Connecting, logging, quitting, and the report of a line in error.

use super::error::Error;
use super::field::{
    data, field, field_or_default, level, level_value, maybe_pair, maybe_pair_layout,
    maybe_pair_shape, maybe_pair_value, role, role_value, scalar_shape, slot, slot_or_default,
    slots, struct_shape, struct_value, text, text_value,
};
use super::record::Record;
use super::scalar::{ConnectRole, DebugLevel, Kind};
use super::shape::{Datum, Field, Layout, Shape, Value};
use vstd::prelude::*;

verus! {

/// **(<)** The engine sends this notification as answer to a syntactically
/// incorrect line it received from the application.
///
/// The application should not send anything back in response to such a
/// notification, as it can result in an infinite loop.
#[derive(Debug, Clone)]
pub struct ErrorIn {
    /// The original line exactly as received: not unescaped, and with its
    /// colons.
    pub original: String,
}

impl Record for ErrorIn {
    open spec fn tag() -> Seq<char> {
        "Error in"@
    }

    open spec fn layout() -> Layout {
        Layout::Struct(
            seq![
                slot(Layout::Rest),
            ],
        )
    }

    open spec fn datum(&self) -> Datum {
        Datum::Struct(
            seq![
                text(self.original@),
            ],
        )
    }

    fn type_tag() -> (tag: &'static str) {
        "Error in"
    }

    fn shape() -> (shape: Shape) {
        let mut fields: Vec<Field> = Vec::new();
        fields.push(field(Shape::Rest));
        let shape = struct_shape(fields);
        assert(slots(fields@) =~= Self::layout()->Struct_0);
        shape
    }

    fn to_value(&self) -> (value: Value) {
        let mut values: Vec<Value> = Vec::new();
        values.push(text_value(&self.original));
        let value = struct_value(values);
        proof {
            reveal_with_fuel(Datum::fits, 3);
            assert(data(values@) =~= self.datum()->Struct_0);
        }
        value
    }

    fn from_value(value: Value) -> (r: Result<Self, Error>) {
        proof {
            reveal_with_fuel(Datum::fits, 3);
        }
        let mut values = match value.into_fields_of(1) {
            Some(values) => values,
            None => {
                return Err(Error::Reflect);
            },
        };
        let ghost all = data(values@);
        let original = values.pop().unwrap();
        assert(original@ == all[0]);
        let original = match original.into_text() {
            Some(original) => original,
            None => {
                return Err(Error::Reflect);
            },
        };
        let record = ErrorIn { original };
        assert(all =~= record.datum()->Struct_0);
        Ok(record)
    }
}

/// **(>)** Relays arbitrary text to the engine's logging output.
///
/// This is the proper way of logging messages for programs that connect to
/// the socket interface, as they may not have the standard error redirected.
#[derive(Debug, Clone)]
pub struct Output {
    /// Arbitrary text.
    pub text: String,
}

impl Record for Output {
    open spec fn tag() -> Seq<char> {
        "%%>output"@
    }

    open spec fn layout() -> Layout {
        Layout::Struct(
            seq![
                slot(Layout::Scalar(Kind::Text)),
            ],
        )
    }

    open spec fn datum(&self) -> Datum {
        Datum::Struct(
            seq![
                text(self.text@),
            ],
        )
    }

    fn type_tag() -> (tag: &'static str) {
        "%%>output"
    }

    fn shape() -> (shape: Shape) {
        let mut fields: Vec<Field> = Vec::new();
        fields.push(field(scalar_shape(Kind::Text)));
        let shape = struct_shape(fields);
        assert(slots(fields@) =~= Self::layout()->Struct_0);
        shape
    }

    fn to_value(&self) -> (value: Value) {
        let mut values: Vec<Value> = Vec::new();
        values.push(text_value(&self.text));
        let value = struct_value(values);
        proof {
            reveal_with_fuel(Datum::fits, 3);
            assert(data(values@) =~= self.datum()->Struct_0);
        }
        value
    }

    fn from_value(value: Value) -> (r: Result<Self, Error>) {
        proof {
            reveal_with_fuel(Datum::fits, 3);
        }
        let mut values = match value.into_fields_of(1) {
            Some(values) => values,
            None => {
                return Err(Error::Reflect);
            },
        };
        let ghost all = data(values@);
        let text = values.pop().unwrap();
        assert(text@ == all[0]);
        let text = match text.into_text() {
            Some(text) => text,
            None => {
                return Err(Error::Reflect);
            },
        };
        let record = Output { text };
        assert(all =~= record.datum()->Struct_0);
        Ok(record)
    }
}

/// **(>)** Relays a debug text to the engine's logging output.
#[derive(Debug, Clone)]
pub struct Debug {
    /// Level of the text.
    pub level: DebugLevel,
    /// Arbitrary text.
    pub text: String,
}

impl Record for Debug {
    open spec fn tag() -> Seq<char> {
        "%%>debug"@
    }

    open spec fn layout() -> Layout {
        Layout::Struct(
            seq![
                slot(Layout::Scalar(Kind::Level)),
                slot(Layout::Scalar(Kind::Text)),
            ],
        )
    }

    open spec fn datum(&self) -> Datum {
        Datum::Struct(
            seq![
                level(self.level),
                text(self.text@),
            ],
        )
    }

    fn type_tag() -> (tag: &'static str) {
        "%%>debug"
    }

    fn shape() -> (shape: Shape) {
        let mut fields: Vec<Field> = Vec::new();
        fields.push(field(scalar_shape(Kind::Level)));
        fields.push(field(scalar_shape(Kind::Text)));
        let shape = struct_shape(fields);
        assert(slots(fields@) =~= Self::layout()->Struct_0);
        shape
    }

    fn to_value(&self) -> (value: Value) {
        let mut values: Vec<Value> = Vec::new();
        values.push(level_value(self.level));
        values.push(text_value(&self.text));
        let value = struct_value(values);
        proof {
            reveal_with_fuel(Datum::fits, 3);
            assert(data(values@) =~= self.datum()->Struct_0);
        }
        value
    }

    fn from_value(value: Value) -> (r: Result<Self, Error>) {
        proof {
            reveal_with_fuel(Datum::fits, 3);
        }
        let mut values = match value.into_fields_of(2) {
            Some(values) => values,
            None => {
                return Err(Error::Reflect);
            },
        };
        let ghost all = data(values@);
        let text = values.pop().unwrap();
        let level = values.pop().unwrap();
        assert(level@ == all[0] && text@ == all[1]);
        let level = match level.into_level() {
            Some(level) => level,
            None => {
                return Err(Error::Reflect);
            },
        };
        let text = match text.into_text() {
            Some(text) => text,
            None => {
                return Err(Error::Reflect);
            },
        };
        let record = Debug { level, text };
        assert(all =~= record.datum()->Struct_0);
        Ok(record)
    }
}

/// **(>)** Tells the engine the role of a socket connection.
///
/// This is only used by modules that attach to the socket interface, and it
/// must be the first request sent over a newly established connection.
/// There is no answer to this request: if it fails, the engine closes the
/// connection.
#[derive(Debug, Clone)]
pub struct Connect {
    /// Role of this connection.
    pub role: ConnectRole,
    /// Channel id to connect this socket to, and the type of its data
    /// channel, `audio` if `None`.
    pub channel: Option<(String, Option<String>)>,
}

impl Record for Connect {
    open spec fn tag() -> Seq<char> {
        "%%>connect"@
    }

    open spec fn layout() -> Layout {
        Layout::Struct(
            seq![
                slot(Layout::Scalar(Kind::Role)),
                slot_or_default(maybe_pair_layout()),
            ],
        )
    }

    open spec fn datum(&self) -> Datum {
        Datum::Struct(
            seq![
                role(self.role),
                maybe_pair(self.channel),
            ],
        )
    }

    fn type_tag() -> (tag: &'static str) {
        "%%>connect"
    }

    fn shape() -> (shape: Shape) {
        let mut fields: Vec<Field> = Vec::new();
        fields.push(field(scalar_shape(Kind::Role)));
        fields.push(field_or_default(maybe_pair_shape()));
        let shape = struct_shape(fields);
        assert(slots(fields@) =~= Self::layout()->Struct_0);
        shape
    }

    fn to_value(&self) -> (value: Value) {
        let mut values: Vec<Value> = Vec::new();
        values.push(role_value(self.role));
        values.push(maybe_pair_value(&self.channel));
        let value = struct_value(values);
        proof {
            reveal_with_fuel(Datum::fits, 3);
            assert(data(values@) =~= self.datum()->Struct_0);
        }
        value
    }

    fn from_value(value: Value) -> (r: Result<Self, Error>) {
        proof {
            reveal_with_fuel(Datum::fits, 3);
        }
        let mut values = match value.into_fields_of(2) {
            Some(values) => values,
            None => {
                return Err(Error::Reflect);
            },
        };
        let ghost all = data(values@);
        let channel = values.pop().unwrap();
        let role = values.pop().unwrap();
        assert(role@ == all[0] && channel@ == all[1]);
        let role = match role.into_role() {
            Some(role) => role,
            None => {
                return Err(Error::Reflect);
            },
        };
        let channel = match channel.into_maybe_pair() {
            Some(channel) => channel,
            None => {
                return Err(Error::Reflect);
            },
        };
        let record = Connect { role, channel };
        assert(all =~= record.datum()->Struct_0);
        Ok(record)
    }
}

/// **(>)** Tells the engine that the application wants to stop handling
/// messages.
#[derive(Debug, Clone)]
pub struct Quit;

impl Record for Quit {
    open spec fn tag() -> Seq<char> {
        "%%>quit"@
    }

    open spec fn layout() -> Layout {
        Layout::Struct(
            Seq::empty(),
        )
    }

    open spec fn datum(&self) -> Datum {
        Datum::Struct(
            Seq::empty(),
        )
    }

    fn type_tag() -> (tag: &'static str) {
        "%%>quit"
    }

    fn shape() -> (shape: Shape) {
        let mut fields: Vec<Field> = Vec::new();
        let shape = struct_shape(fields);
        assert(slots(fields@) =~= Self::layout()->Struct_0);
        shape
    }

    fn to_value(&self) -> (value: Value) {
        let mut values: Vec<Value> = Vec::new();
        let value = struct_value(values);
        proof {
            reveal_with_fuel(Datum::fits, 3);
            assert(data(values@) =~= self.datum()->Struct_0);
        }
        value
    }

    fn from_value(value: Value) -> (r: Result<Self, Error>) {
        proof {
            reveal_with_fuel(Datum::fits, 3);
        }
        let values = match value.into_fields_of(0) {
            Some(values) => values,
            None => {
                return Err(Error::Reflect);
            },
        };
        assert(data(values@) =~= Seq::empty());
        Ok(Quit)
    }
}

/// **(<)** Confirmation that the engine will send no more messages.
#[derive(Debug, Clone)]
pub struct QuitAck;

impl Record for QuitAck {
    open spec fn tag() -> Seq<char> {
        "%%<quit"@
    }

    open spec fn layout() -> Layout {
        Layout::Struct(
            Seq::empty(),
        )
    }

    open spec fn datum(&self) -> Datum {
        Datum::Struct(
            Seq::empty(),
        )
    }

    fn type_tag() -> (tag: &'static str) {
        "%%<quit"
    }

    fn shape() -> (shape: Shape) {
        let mut fields: Vec<Field> = Vec::new();
        let shape = struct_shape(fields);
        assert(slots(fields@) =~= Self::layout()->Struct_0);
        shape
    }

    fn to_value(&self) -> (value: Value) {
        let mut values: Vec<Value> = Vec::new();
        let value = struct_value(values);
        proof {
            reveal_with_fuel(Datum::fits, 3);
            assert(data(values@) =~= self.datum()->Struct_0);
        }
        value
    }

    fn from_value(value: Value) -> (r: Result<Self, Error>) {
        proof {
            reveal_with_fuel(Datum::fits, 3);
        }
        let values = match value.into_fields_of(0) {
            Some(values) => values,
            None => {
                return Err(Error::Reflect);
            },
        };
        assert(data(values@) =~= Seq::empty());
        Ok(QuitAck)
    }
}

} // verus!
