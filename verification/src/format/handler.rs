//! Installing and removing message handlers.

use super::error::Error;
use super::field::{
    data, field, field_or_default, flag, flag_value, maybe_layout, maybe_number, maybe_number_value,
    maybe_pair, maybe_pair_layout, maybe_pair_shape, maybe_pair_value, maybe_shape, number,
    number_value, scalar_shape, slot, slot_or_default, slots, struct_shape, struct_value, text,
    text_value,
};
use super::record::Record;
use super::scalar::Kind;
use super::shape::{Datum, Field, Layout, Shape, Value};
use vstd::prelude::*;

verus! {

/// **(>)** Requests the installing of a message **handler**.
#[derive(Debug, Clone)]
pub struct InstallReq {
    /// Priority in chain, use default (`100`) if `None`.
    pub priority: Option<u64>,
    /// Name of the messages for that a handler should be installed.
    pub name: String,
    /// Filter for the installed handler: the name of a variable the handler
    /// will filter, and the matching value for the filtered variable.
    pub filter: Option<(String, Option<String>)>,
}

/// The request to install a message handler.
pub type Install = InstallReq;

impl Record for InstallReq {
    open spec fn tag() -> Seq<char> {
        "%%>install"@
    }

    open spec fn layout() -> Layout {
        Layout::Struct(
            seq![
                slot(maybe_layout(Kind::Number)),
                slot(Layout::Scalar(Kind::Text)),
                slot_or_default(maybe_pair_layout()),
            ],
        )
    }

    open spec fn datum(&self) -> Datum {
        Datum::Struct(
            seq![
                maybe_number(self.priority),
                text(self.name@),
                maybe_pair(self.filter),
            ],
        )
    }

    fn type_tag() -> (tag: &'static str) {
        "%%>install"
    }

    fn shape() -> (shape: Shape) {
        let mut fields: Vec<Field> = Vec::new();
        fields.push(field(maybe_shape(Kind::Number)));
        fields.push(field(scalar_shape(Kind::Text)));
        fields.push(field_or_default(maybe_pair_shape()));
        let shape = struct_shape(fields);
        assert(slots(fields@) =~= Self::layout()->Struct_0);
        shape
    }

    fn to_value(&self) -> (value: Value) {
        let mut values: Vec<Value> = Vec::new();
        values.push(maybe_number_value(self.priority));
        values.push(text_value(&self.name));
        values.push(maybe_pair_value(&self.filter));
        let value = struct_value(values);
        proof {
            reveal_with_fuel(Datum::fits, 3);
            assert(data(values@) =~= self.datum()->Struct_0);
        }
        value
    }

    fn from_value(value: Value) -> (r: Result<Self, Error>) {
        proof {
            reveal_with_fuel(Datum::fits, 3);
        }
        let mut values = match value.into_fields_of(3) {
            Some(values) => values,
            None => {
                return Err(Error::Reflect);
            },
        };
        let ghost all = data(values@);
        let filter = values.pop().unwrap();
        let name = values.pop().unwrap();
        let priority = values.pop().unwrap();
        assert(priority@ == all[0] && name@ == all[1] && filter@ == all[2]);
        let priority = match priority.into_maybe_number() {
            Some(priority) => priority,
            None => {
                return Err(Error::Reflect);
            },
        };
        let name = match name.into_text() {
            Some(name) => name,
            None => {
                return Err(Error::Reflect);
            },
        };
        let filter = match filter.into_maybe_pair() {
            Some(filter) => filter,
            None => {
                return Err(Error::Reflect);
            },
        };
        let record = InstallReq { priority, name, filter };
        assert(all =~= record.datum()->Struct_0);
        Ok(record)
    }
}

/// **(<)** Confirmation that the **handler** has been installed properly or not.
#[derive(Debug, Clone)]
pub struct InstallAck {
    /// Priority of the installed handler.
    pub priority: u64,
    /// Name of the messages asked to handle.
    pub name: String,
    /// Success of operation.
    pub success: bool,
}

impl Record for InstallAck {
    open spec fn tag() -> Seq<char> {
        "%%<install"@
    }

    open spec fn layout() -> Layout {
        Layout::Struct(
            seq![
                slot(Layout::Scalar(Kind::Number)),
                slot(Layout::Scalar(Kind::Text)),
                slot(Layout::Scalar(Kind::Flag)),
            ],
        )
    }

    open spec fn datum(&self) -> Datum {
        Datum::Struct(
            seq![
                number(self.priority),
                text(self.name@),
                flag(self.success),
            ],
        )
    }

    fn type_tag() -> (tag: &'static str) {
        "%%<install"
    }

    fn shape() -> (shape: Shape) {
        let mut fields: Vec<Field> = Vec::new();
        fields.push(field(scalar_shape(Kind::Number)));
        fields.push(field(scalar_shape(Kind::Text)));
        fields.push(field(scalar_shape(Kind::Flag)));
        let shape = struct_shape(fields);
        assert(slots(fields@) =~= Self::layout()->Struct_0);
        shape
    }

    fn to_value(&self) -> (value: Value) {
        let mut values: Vec<Value> = Vec::new();
        values.push(number_value(self.priority));
        values.push(text_value(&self.name));
        values.push(flag_value(self.success));
        let value = struct_value(values);
        proof {
            reveal_with_fuel(Datum::fits, 3);
            assert(data(values@) =~= self.datum()->Struct_0);
        }
        value
    }

    fn from_value(value: Value) -> (r: Result<Self, Error>) {
        proof {
            reveal_with_fuel(Datum::fits, 3);
        }
        let mut values = match value.into_fields_of(3) {
            Some(values) => values,
            None => {
                return Err(Error::Reflect);
            },
        };
        let ghost all = data(values@);
        let success = values.pop().unwrap();
        let name = values.pop().unwrap();
        let priority = values.pop().unwrap();
        assert(priority@ == all[0] && name@ == all[1] && success@ == all[2]);
        let priority = match priority.into_number() {
            Some(priority) => priority,
            None => {
                return Err(Error::Reflect);
            },
        };
        let name = match name.into_text() {
            Some(name) => name,
            None => {
                return Err(Error::Reflect);
            },
        };
        let success = match success.into_flag() {
            Some(success) => success,
            None => {
                return Err(Error::Reflect);
            },
        };
        let record = InstallAck { priority, name, success };
        assert(all =~= record.datum()->Struct_0);
        Ok(record)
    }
}

/// **(>)** Requests uninstalling a previously installed message **handler**.
#[derive(Debug, Clone)]
pub struct UninstallReq {
    /// Name of the message handler that should be uninstalled.
    pub name: String,
}

/// The request to remove a message handler.
pub type Uninstall = UninstallReq;

impl Record for UninstallReq {
    open spec fn tag() -> Seq<char> {
        "%%>uninstall"@
    }

    open spec fn layout() -> Layout {
        Layout::Struct(
            seq![
                slot(Layout::Scalar(Kind::Text)),
            ],
        )
    }

    open spec fn datum(&self) -> Datum {
        Datum::Struct(
            seq![
                text(self.name@),
            ],
        )
    }

    fn type_tag() -> (tag: &'static str) {
        "%%>uninstall"
    }

    fn shape() -> (shape: Shape) {
        let mut fields: Vec<Field> = Vec::new();
        fields.push(field(scalar_shape(Kind::Text)));
        let shape = struct_shape(fields);
        assert(slots(fields@) =~= Self::layout()->Struct_0);
        shape
    }

    fn to_value(&self) -> (value: Value) {
        let mut values: Vec<Value> = Vec::new();
        values.push(text_value(&self.name));
        let value = struct_value(values);
        proof {
            reveal_with_fuel(Datum::fits, 3);
            assert(data(values@) =~= self.datum()->Struct_0);
        }
        value
    }

    fn from_value(value: Value) -> (r: Result<Self, Error>) {
        proof {
            reveal_with_fuel(Datum::fits, 3);
        }
        let mut values = match value.into_fields_of(1) {
            Some(values) => values,
            None => {
                return Err(Error::Reflect);
            },
        };
        let ghost all = data(values@);
        let name = values.pop().unwrap();
        assert(name@ == all[0]);
        let name = match name.into_text() {
            Some(name) => name,
            None => {
                return Err(Error::Reflect);
            },
        };
        let record = UninstallReq { name };
        assert(all =~= record.datum()->Struct_0);
        Ok(record)
    }
}

/// **(<)** Confirmation that the **handler** has been uninstalled properly or not.
#[derive(Debug, Clone)]
pub struct UninstallAck {
    /// Priority of the previously installed handler.
    pub priority: u64,
    /// Name of the message handler asked to uninstall.
    pub name: String,
    /// Success of operation.
    pub success: bool,
}

impl Record for UninstallAck {
    open spec fn tag() -> Seq<char> {
        "%%<uninstall"@
    }

    open spec fn layout() -> Layout {
        Layout::Struct(
            seq![
                slot(Layout::Scalar(Kind::Number)),
                slot(Layout::Scalar(Kind::Text)),
                slot(Layout::Scalar(Kind::Flag)),
            ],
        )
    }

    open spec fn datum(&self) -> Datum {
        Datum::Struct(
            seq![
                number(self.priority),
                text(self.name@),
                flag(self.success),
            ],
        )
    }

    fn type_tag() -> (tag: &'static str) {
        "%%<uninstall"
    }

    fn shape() -> (shape: Shape) {
        let mut fields: Vec<Field> = Vec::new();
        fields.push(field(scalar_shape(Kind::Number)));
        fields.push(field(scalar_shape(Kind::Text)));
        fields.push(field(scalar_shape(Kind::Flag)));
        let shape = struct_shape(fields);
        assert(slots(fields@) =~= Self::layout()->Struct_0);
        shape
    }

    fn to_value(&self) -> (value: Value) {
        let mut values: Vec<Value> = Vec::new();
        values.push(number_value(self.priority));
        values.push(text_value(&self.name));
        values.push(flag_value(self.success));
        let value = struct_value(values);
        proof {
            reveal_with_fuel(Datum::fits, 3);
            assert(data(values@) =~= self.datum()->Struct_0);
        }
        value
    }

    fn from_value(value: Value) -> (r: Result<Self, Error>) {
        proof {
            reveal_with_fuel(Datum::fits, 3);
        }
        let mut values = match value.into_fields_of(3) {
            Some(values) => values,
            None => {
                return Err(Error::Reflect);
            },
        };
        let ghost all = data(values@);
        let success = values.pop().unwrap();
        let name = values.pop().unwrap();
        let priority = values.pop().unwrap();
        assert(priority@ == all[0] && name@ == all[1] && success@ == all[2]);
        let priority = match priority.into_number() {
            Some(priority) => priority,
            None => {
                return Err(Error::Reflect);
            },
        };
        let name = match name.into_text() {
            Some(name) => name,
            None => {
                return Err(Error::Reflect);
            },
        };
        let success = match success.into_flag() {
            Some(success) => success,
            None => {
                return Err(Error::Reflect);
            },
        };
        let record = UninstallAck { priority, name, success };
        assert(all =~= record.datum()->Struct_0);
        Ok(record)
    }
}

} // verus!
