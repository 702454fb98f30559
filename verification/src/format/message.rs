//! Messages and their acknowledgements.

use super::error::Error;
use super::field::{
    data, field, flag, flag_value, maybe_layout, maybe_shape, maybe_text, maybe_text_value, number,
    number_value, params_value, scalar_shape, slot, slots, struct_shape, struct_value, text,
    text_value,
};
use super::params::Params;
use super::record::Record;
use super::scalar::Kind;
use super::shape::{Datum, Field, Layout, Shape, Value};
use vstd::prelude::*;

verus! {

/// **(~)** A message that is sent to be processed: by the engine when the
/// application sends it, by the application when the engine does.
#[derive(Debug, Clone)]
pub struct MessageReq {
    /// Obscure unique message id, echoed by the answer.
    pub id: String,
    /// Time the message was created, in seconds since the Unix epoch.
    pub time: u64,
    /// Name of the message.
    pub name: String,
    /// Default textual return value of the message.
    pub retvalue: String,
    /// Parameters of the message.
    pub kv: Params,
}

/// A message on its way to be processed.
pub type Message = MessageReq;

impl Record for MessageReq {
    open spec fn tag() -> Seq<char> {
        "%%>message"@
    }

    open spec fn layout() -> Layout {
        Layout::Struct(
            seq![
                slot(Layout::Scalar(Kind::Text)),
                slot(Layout::Scalar(Kind::Number)),
                slot(Layout::Scalar(Kind::Text)),
                slot(Layout::Scalar(Kind::Text)),
                slot(Layout::Pairs),
            ],
        )
    }

    open spec fn datum(&self) -> Datum {
        Datum::Struct(
            seq![
                text(self.id@),
                number(self.time),
                text(self.name@),
                text(self.retvalue@),
                Datum::Pairs(self.kv@),
            ],
        )
    }

    fn type_tag() -> (tag: &'static str) {
        "%%>message"
    }

    fn shape() -> (shape: Shape) {
        let mut fields: Vec<Field> = Vec::new();
        fields.push(field(scalar_shape(Kind::Text)));
        fields.push(field(scalar_shape(Kind::Number)));
        fields.push(field(scalar_shape(Kind::Text)));
        fields.push(field(scalar_shape(Kind::Text)));
        fields.push(field(Shape::Pairs));
        let shape = struct_shape(fields);
        assert(slots(fields@) =~= Self::layout()->Struct_0);
        shape
    }

    fn to_value(&self) -> (value: Value) {
        let mut values: Vec<Value> = Vec::new();
        values.push(text_value(&self.id));
        values.push(number_value(self.time));
        values.push(text_value(&self.name));
        values.push(text_value(&self.retvalue));
        values.push(params_value(&self.kv));
        let value = struct_value(values);
        proof {
            reveal_with_fuel(Datum::fits, 3);
            assert(data(values@) =~= self.datum()->Struct_0);
        }
        value
    }

    fn from_value(value: Value) -> (r: Result<Self, Error>) {
        proof {
            reveal_with_fuel(Datum::fits, 3);
        }
        let mut values = match value.into_fields_of(5) {
            Some(values) => values,
            None => {
                return Err(Error::Reflect);
            },
        };
        let ghost all = data(values@);
        let kv = values.pop().unwrap();
        let retvalue = values.pop().unwrap();
        let name = values.pop().unwrap();
        let time = values.pop().unwrap();
        let id = values.pop().unwrap();
        assert(id@ == all[0] && time@ == all[1] && name@ == all[2] && retvalue@ == all[3] && kv@ == all[4]);
        let id = match id.into_text() {
            Some(id) => id,
            None => {
                return Err(Error::Reflect);
            },
        };
        let time = match time.into_number() {
            Some(time) => time,
            None => {
                return Err(Error::Reflect);
            },
        };
        let name = match name.into_text() {
            Some(name) => name,
            None => {
                return Err(Error::Reflect);
            },
        };
        let retvalue = match retvalue.into_text() {
            Some(retvalue) => retvalue,
            None => {
                return Err(Error::Reflect);
            },
        };
        let kv = match kv.into_params() {
            Some(kv) => kv,
            None => {
                return Err(Error::Reflect);
            },
        };
        let record = MessageReq { id, time, name, retvalue, kv };
        assert(all =~= record.datum()->Struct_0);
        Ok(record)
    }
}

/// **(~)** The answer to a message, after it was processed. The engine also
/// hands a watched message to its watchers in this form.
#[derive(Debug, Clone)]
pub struct MessageAck {
    /// The id of the message that is answered.
    pub id: String,
    /// Whether the message was processed, so that no other handler gets it.
    pub processed: bool,
    /// New name of the message, or `None` to leave it unchanged.
    pub name: Option<String>,
    /// New textual return value of the message.
    pub retvalue: String,
    /// New values of the parameters of the message.
    pub kv: Params,
}

impl Record for MessageAck {
    open spec fn tag() -> Seq<char> {
        "%%<message"@
    }

    open spec fn layout() -> Layout {
        Layout::Struct(
            seq![
                slot(Layout::Scalar(Kind::Text)),
                slot(Layout::Scalar(Kind::Flag)),
                slot(maybe_layout(Kind::Text)),
                slot(Layout::Scalar(Kind::Text)),
                slot(Layout::Pairs),
            ],
        )
    }

    open spec fn datum(&self) -> Datum {
        Datum::Struct(
            seq![
                text(self.id@),
                flag(self.processed),
                maybe_text(self.name),
                text(self.retvalue@),
                Datum::Pairs(self.kv@),
            ],
        )
    }

    fn type_tag() -> (tag: &'static str) {
        "%%<message"
    }

    fn shape() -> (shape: Shape) {
        let mut fields: Vec<Field> = Vec::new();
        fields.push(field(scalar_shape(Kind::Text)));
        fields.push(field(scalar_shape(Kind::Flag)));
        fields.push(field(maybe_shape(Kind::Text)));
        fields.push(field(scalar_shape(Kind::Text)));
        fields.push(field(Shape::Pairs));
        let shape = struct_shape(fields);
        assert(slots(fields@) =~= Self::layout()->Struct_0);
        shape
    }

    fn to_value(&self) -> (value: Value) {
        let mut values: Vec<Value> = Vec::new();
        values.push(text_value(&self.id));
        values.push(flag_value(self.processed));
        values.push(maybe_text_value(&self.name));
        values.push(text_value(&self.retvalue));
        values.push(params_value(&self.kv));
        let value = struct_value(values);
        proof {
            reveal_with_fuel(Datum::fits, 3);
            assert(data(values@) =~= self.datum()->Struct_0);
        }
        value
    }

    fn from_value(value: Value) -> (r: Result<Self, Error>) {
        proof {
            reveal_with_fuel(Datum::fits, 3);
        }
        let mut values = match value.into_fields_of(5) {
            Some(values) => values,
            None => {
                return Err(Error::Reflect);
            },
        };
        let ghost all = data(values@);
        let kv = values.pop().unwrap();
        let retvalue = values.pop().unwrap();
        let name = values.pop().unwrap();
        let processed = values.pop().unwrap();
        let id = values.pop().unwrap();
        assert(id@ == all[0] && processed@ == all[1] && name@ == all[2] && retvalue@ == all[3] && kv@ == all[4]);
        let id = match id.into_text() {
            Some(id) => id,
            None => {
                return Err(Error::Reflect);
            },
        };
        let processed = match processed.into_flag() {
            Some(processed) => processed,
            None => {
                return Err(Error::Reflect);
            },
        };
        let name = match name.into_maybe_text() {
            Some(name) => name,
            None => {
                return Err(Error::Reflect);
            },
        };
        let retvalue = match retvalue.into_text() {
            Some(retvalue) => retvalue,
            None => {
                return Err(Error::Reflect);
            },
        };
        let kv = match kv.into_params() {
            Some(kv) => kv,
            None => {
                return Err(Error::Reflect);
            },
        };
        let record = MessageAck { id, processed, name, retvalue, kv };
        assert(all =~= record.datum()->Struct_0);
        Ok(record)
    }
}

} // verus!
