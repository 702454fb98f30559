//! Local parameters of the module instance.

use super::error::Error;
use super::field::{
    data, field, flag, flag_value, maybe_layout, maybe_shape, maybe_text, maybe_text_value,
    scalar_shape, slot, slots, struct_shape, struct_value, text, text_value,
};
use super::record::Record;
use super::scalar::Kind;
use super::shape::{Datum, Field, Layout, Shape, Value};
use vstd::prelude::*;

verus! {

/// **(>)** Requests the change of a **local parameter**.
///
/// The engine knows, among others, the parameters `id`, `disconnected`,
/// `trackparam`, `reason`, `timeout`, `timebomb`, `bufsize`, `setdata`,
/// `reenter`, `selfwatch` and `restart`, and the read-only `engine.*` and
/// `config.*` keys. No name is refused here: that is left to the engine.
#[derive(Debug, Clone)]
pub struct SetLocalReq {
    /// Name of the parameter to modify.
    pub name: String,
    /// New value to set in the local module instance, `None` to just query.
    pub value: Option<String>,
}

/// The request to change or query a local parameter.
pub type SetLocal = SetLocalReq;

impl Record for SetLocalReq {
    open spec fn tag() -> Seq<char> {
        "%%>setlocal"@
    }

    open spec fn layout() -> Layout {
        Layout::Struct(
            seq![
                slot(Layout::Scalar(Kind::Text)),
                slot(maybe_layout(Kind::Text)),
            ],
        )
    }

    open spec fn datum(&self) -> Datum {
        Datum::Struct(
            seq![
                text(self.name@),
                maybe_text(self.value),
            ],
        )
    }

    fn type_tag() -> (tag: &'static str) {
        "%%>setlocal"
    }

    fn shape() -> (shape: Shape) {
        let mut fields: Vec<Field> = Vec::new();
        fields.push(field(scalar_shape(Kind::Text)));
        fields.push(field(maybe_shape(Kind::Text)));
        let shape = struct_shape(fields);
        assert(slots(fields@) =~= Self::layout()->Struct_0);
        shape
    }

    fn to_value(&self) -> (value: Value) {
        let mut values: Vec<Value> = Vec::new();
        values.push(text_value(&self.name));
        values.push(maybe_text_value(&self.value));
        let value = struct_value(values);
        proof {
            reveal_with_fuel(Datum::fits, 3);
            assert(data(values@) =~= self.datum()->Struct_0);
        }
        value
    }

    fn from_value(value: Value) -> (r: Result<Self, Error>) {
        proof {
            reveal_with_fuel(Datum::fits, 3);
        }
        let mut values = match value.into_fields_of(2) {
            Some(values) => values,
            None => {
                return Err(Error::Reflect);
            },
        };
        let ghost all = data(values@);
        let value = values.pop().unwrap();
        let name = values.pop().unwrap();
        assert(name@ == all[0] && value@ == all[1]);
        let name = match name.into_text() {
            Some(name) => name,
            None => {
                return Err(Error::Reflect);
            },
        };
        let value = match value.into_maybe_text() {
            Some(value) => value,
            None => {
                return Err(Error::Reflect);
            },
        };
        let record = SetLocalReq { name, value };
        assert(all =~= record.datum()->Struct_0);
        Ok(record)
    }
}

/// **(<)** Confirmation that the **local parameter** has been changed
/// successfully or not.
#[derive(Debug, Clone)]
pub struct SetLocalAck {
    /// Name of the modified parameter.
    pub name: String,
    /// Value of the local parameter.
    pub value: String,
    /// Success of operation.
    pub success: bool,
}

impl Record for SetLocalAck {
    open spec fn tag() -> Seq<char> {
        "%%<setlocal"@
    }

    open spec fn layout() -> Layout {
        Layout::Struct(
            seq![
                slot(Layout::Scalar(Kind::Text)),
                slot(Layout::Scalar(Kind::Text)),
                slot(Layout::Scalar(Kind::Flag)),
            ],
        )
    }

    open spec fn datum(&self) -> Datum {
        Datum::Struct(
            seq![
                text(self.name@),
                text(self.value@),
                flag(self.success),
            ],
        )
    }

    fn type_tag() -> (tag: &'static str) {
        "%%<setlocal"
    }

    fn shape() -> (shape: Shape) {
        let mut fields: Vec<Field> = Vec::new();
        fields.push(field(scalar_shape(Kind::Text)));
        fields.push(field(scalar_shape(Kind::Text)));
        fields.push(field(scalar_shape(Kind::Flag)));
        let shape = struct_shape(fields);
        assert(slots(fields@) =~= Self::layout()->Struct_0);
        shape
    }

    fn to_value(&self) -> (value: Value) {
        let mut values: Vec<Value> = Vec::new();
        values.push(text_value(&self.name));
        values.push(text_value(&self.value));
        values.push(flag_value(self.success));
        let value = struct_value(values);
        proof {
            reveal_with_fuel(Datum::fits, 3);
            assert(data(values@) =~= self.datum()->Struct_0);
        }
        value
    }

    fn from_value(value: Value) -> (r: Result<Self, Error>) {
        proof {
            reveal_with_fuel(Datum::fits, 3);
        }
        let mut values = match value.into_fields_of(3) {
            Some(values) => values,
            None => {
                return Err(Error::Reflect);
            },
        };
        let ghost all = data(values@);
        let success = values.pop().unwrap();
        let value = values.pop().unwrap();
        let name = values.pop().unwrap();
        assert(name@ == all[0] && value@ == all[1] && success@ == all[2]);
        let name = match name.into_text() {
            Some(name) => name,
            None => {
                return Err(Error::Reflect);
            },
        };
        let value = match value.into_text() {
            Some(value) => value,
            None => {
                return Err(Error::Reflect);
            },
        };
        let success = match success.into_flag() {
            Some(success) => success,
            None => {
                return Err(Error::Reflect);
            },
        };
        let record = SetLocalAck { name, value, success };
        assert(all =~= record.datum()->Struct_0);
        Ok(record)
    }
}

} // verus!
