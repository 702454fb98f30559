//! Installing and removing message watchers.

use super::error::Error;
use super::field::{
    data, field, flag, flag_value, scalar_shape, slot, slots, struct_shape, struct_value, text,
    text_value,
};
use super::record::Record;
use super::scalar::Kind;
use super::shape::{Datum, Field, Layout, Shape, Value};
use vstd::prelude::*;

verus! {

/// **(>)** Requests the installing of a message **watcher**
/// (post-dispatching notifier).
#[derive(Debug, Clone)]
pub struct WatchReq {
    /// Name of the messages for that a watcher should be installed.
    pub name: String,
}

/// The request to install a message watcher.
pub type Watch = WatchReq;

impl Record for WatchReq {
    open spec fn tag() -> Seq<char> {
        "%%>watch"@
    }

    open spec fn layout() -> Layout {
        Layout::Struct(
            seq![
                slot(Layout::Scalar(Kind::Text)),
            ],
        )
    }

    open spec fn datum(&self) -> Datum {
        Datum::Struct(
            seq![
                text(self.name@),
            ],
        )
    }

    fn type_tag() -> (tag: &'static str) {
        "%%>watch"
    }

    fn shape() -> (shape: Shape) {
        let mut fields: Vec<Field> = Vec::new();
        fields.push(field(scalar_shape(Kind::Text)));
        let shape = struct_shape(fields);
        assert(slots(fields@) =~= Self::layout()->Struct_0);
        shape
    }

    fn to_value(&self) -> (value: Value) {
        let mut values: Vec<Value> = Vec::new();
        values.push(text_value(&self.name));
        let value = struct_value(values);
        proof {
            reveal_with_fuel(Datum::fits, 3);
            assert(data(values@) =~= self.datum()->Struct_0);
        }
        value
    }

    fn from_value(value: Value) -> (r: Result<Self, Error>) {
        proof {
            reveal_with_fuel(Datum::fits, 3);
        }
        let mut values = match value.into_fields_of(1) {
            Some(values) => values,
            None => {
                return Err(Error::Reflect);
            },
        };
        let ghost all = data(values@);
        let name = values.pop().unwrap();
        assert(name@ == all[0]);
        let name = match name.into_text() {
            Some(name) => name,
            None => {
                return Err(Error::Reflect);
            },
        };
        let record = WatchReq { name };
        assert(all =~= record.datum()->Struct_0);
        Ok(record)
    }
}

/// **(<)** Confirmation that the **watcher** has been installed properly or not.
#[derive(Debug, Clone)]
pub struct WatchAck {
    /// Name of the messages asked to watch.
    pub name: String,
    /// Success of operation.
    pub success: bool,
}

impl Record for WatchAck {
    open spec fn tag() -> Seq<char> {
        "%%<watch"@
    }

    open spec fn layout() -> Layout {
        Layout::Struct(
            seq![
                slot(Layout::Scalar(Kind::Text)),
                slot(Layout::Scalar(Kind::Flag)),
            ],
        )
    }

    open spec fn datum(&self) -> Datum {
        Datum::Struct(
            seq![
                text(self.name@),
                flag(self.success),
            ],
        )
    }

    fn type_tag() -> (tag: &'static str) {
        "%%<watch"
    }

    fn shape() -> (shape: Shape) {
        let mut fields: Vec<Field> = Vec::new();
        fields.push(field(scalar_shape(Kind::Text)));
        fields.push(field(scalar_shape(Kind::Flag)));
        let shape = struct_shape(fields);
        assert(slots(fields@) =~= Self::layout()->Struct_0);
        shape
    }

    fn to_value(&self) -> (value: Value) {
        let mut values: Vec<Value> = Vec::new();
        values.push(text_value(&self.name));
        values.push(flag_value(self.success));
        let value = struct_value(values);
        proof {
            reveal_with_fuel(Datum::fits, 3);
            assert(data(values@) =~= self.datum()->Struct_0);
        }
        value
    }

    fn from_value(value: Value) -> (r: Result<Self, Error>) {
        proof {
            reveal_with_fuel(Datum::fits, 3);
        }
        let mut values = match value.into_fields_of(2) {
            Some(values) => values,
            None => {
                return Err(Error::Reflect);
            },
        };
        let ghost all = data(values@);
        let success = values.pop().unwrap();
        let name = values.pop().unwrap();
        assert(name@ == all[0] && success@ == all[1]);
        let name = match name.into_text() {
            Some(name) => name,
            None => {
                return Err(Error::Reflect);
            },
        };
        let success = match success.into_flag() {
            Some(success) => success,
            None => {
                return Err(Error::Reflect);
            },
        };
        let record = WatchAck { name, success };
        assert(all =~= record.datum()->Struct_0);
        Ok(record)
    }
}

/// **(>)** Requests uninstalling a previously installed message **watcher**.
#[derive(Debug, Clone)]
pub struct UnwatchReq {
    /// Name of the message watcher that should be uninstalled.
    pub name: String,
}

/// The request to remove a message watcher.
pub type Unwatch = UnwatchReq;

impl Record for UnwatchReq {
    open spec fn tag() -> Seq<char> {
        "%%>unwatch"@
    }

    open spec fn layout() -> Layout {
        Layout::Struct(
            seq![
                slot(Layout::Scalar(Kind::Text)),
            ],
        )
    }

    open spec fn datum(&self) -> Datum {
        Datum::Struct(
            seq![
                text(self.name@),
            ],
        )
    }

    fn type_tag() -> (tag: &'static str) {
        "%%>unwatch"
    }

    fn shape() -> (shape: Shape) {
        let mut fields: Vec<Field> = Vec::new();
        fields.push(field(scalar_shape(Kind::Text)));
        let shape = struct_shape(fields);
        assert(slots(fields@) =~= Self::layout()->Struct_0);
        shape
    }

    fn to_value(&self) -> (value: Value) {
        let mut values: Vec<Value> = Vec::new();
        values.push(text_value(&self.name));
        let value = struct_value(values);
        proof {
            reveal_with_fuel(Datum::fits, 3);
            assert(data(values@) =~= self.datum()->Struct_0);
        }
        value
    }

    fn from_value(value: Value) -> (r: Result<Self, Error>) {
        proof {
            reveal_with_fuel(Datum::fits, 3);
        }
        let mut values = match value.into_fields_of(1) {
            Some(values) => values,
            None => {
                return Err(Error::Reflect);
            },
        };
        let ghost all = data(values@);
        let name = values.pop().unwrap();
        assert(name@ == all[0]);
        let name = match name.into_text() {
            Some(name) => name,
            None => {
                return Err(Error::Reflect);
            },
        };
        let record = UnwatchReq { name };
        assert(all =~= record.datum()->Struct_0);
        Ok(record)
    }
}

/// **(<)** Confirmation that the **watcher** has been uninstalled properly or not.
#[derive(Debug, Clone)]
pub struct UnwatchAck {
    /// Name of the message watcher asked to uninstall.
    pub name: String,
    /// Success of operation.
    pub success: bool,
}

impl Record for UnwatchAck {
    open spec fn tag() -> Seq<char> {
        "%%<unwatch"@
    }

    open spec fn layout() -> Layout {
        Layout::Struct(
            seq![
                slot(Layout::Scalar(Kind::Text)),
                slot(Layout::Scalar(Kind::Flag)),
            ],
        )
    }

    open spec fn datum(&self) -> Datum {
        Datum::Struct(
            seq![
                text(self.name@),
                flag(self.success),
            ],
        )
    }

    fn type_tag() -> (tag: &'static str) {
        "%%<unwatch"
    }

    fn shape() -> (shape: Shape) {
        let mut fields: Vec<Field> = Vec::new();
        fields.push(field(scalar_shape(Kind::Text)));
        fields.push(field(scalar_shape(Kind::Flag)));
        let shape = struct_shape(fields);
        assert(slots(fields@) =~= Self::layout()->Struct_0);
        shape
    }

    fn to_value(&self) -> (value: Value) {
        let mut values: Vec<Value> = Vec::new();
        values.push(text_value(&self.name));
        values.push(flag_value(self.success));
        let value = struct_value(values);
        proof {
            reveal_with_fuel(Datum::fits, 3);
            assert(data(values@) =~= self.datum()->Struct_0);
        }
        value
    }

    fn from_value(value: Value) -> (r: Result<Self, Error>) {
        proof {
            reveal_with_fuel(Datum::fits, 3);
        }
        let mut values = match value.into_fields_of(2) {
            Some(values) => values,
            None => {
                return Err(Error::Reflect);
            },
        };
        let ghost all = data(values@);
        let success = values.pop().unwrap();
        let name = values.pop().unwrap();
        assert(name@ == all[0] && success@ == all[1]);
        let name = match name.into_text() {
            Some(name) => name,
            None => {
                return Err(Error::Reflect);
            },
        };
        let success = match success.into_flag() {
            Some(success) => success,
            None => {
                return Err(Error::Reflect);
            },
        };
        let record = UnwatchAck { name, success };
        assert(all =~= record.datum()->Struct_0);
        Ok(record)
    }
}

} // verus!
