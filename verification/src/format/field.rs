//! Building blocks for the records: how the fields of a record stand in a
//! [`Value`], and how they are taken out of one.

use super::params::Params;
use super::scalar::{Atom, ConnectRole, DebugLevel, Kind, Scalar};
use super::shape::{Datum, Field, Layout, Shape, Slot, Value};
use vstd::prelude::*;

verus! {

/// A text field.
pub open spec fn text(s: Seq<char>) -> Datum {
    Datum::Scalar(Atom::Text(s))
}

/// A number field.
pub open spec fn number(n: u64) -> Datum {
    Datum::Scalar(Atom::Number(n))
}

/// A flag field.
pub open spec fn flag(b: bool) -> Datum {
    Datum::Scalar(Atom::Flag(b))
}

/// A role field.
pub open spec fn role(r: ConnectRole) -> Datum {
    Datum::Scalar(Atom::Role(r))
}

/// A level field.
pub open spec fn level(l: DebugLevel) -> Datum {
    Datum::Scalar(Atom::Level(l))
}

/// A field that may be absent.
pub open spec fn maybe(d: Option<Datum>) -> Datum {
    match d {
        Some(value) => Datum::Present(Box::new(value)),
        None => Datum::Absent,
    }
}

/// A text field that may be absent.
pub open spec fn maybe_text(s: Option<String>) -> Datum {
    match s {
        Some(s) => maybe(Some(text(s@))),
        None => Datum::Absent,
    }
}

/// A number field that may be absent.
pub open spec fn maybe_number(n: Option<u64>) -> Datum {
    match n {
        Some(n) => maybe(Some(number(n))),
        None => Datum::Absent,
    }
}

/// A text with a second text that may be absent.
pub open spec fn pair(p: (String, Option<String>)) -> Datum {
    Datum::Struct(seq![text(p.0@), maybe_text(p.1)])
}

/// A pair that may be absent.
pub open spec fn maybe_pair(p: Option<(String, Option<String>)>) -> Datum {
    match p {
        Some(p) => maybe(Some(pair(p))),
        None => Datum::Absent,
    }
}

/// A slot without a default.
pub open spec fn slot(layout: Layout) -> Slot {
    Slot { layout, has_default: false }
}

/// A slot that takes its default when the frame ends before it.
pub open spec fn slot_or_default(layout: Layout) -> Slot {
    Slot { layout, has_default: true }
}

/// The shape of a scalar that may be absent.
pub open spec fn maybe_layout(kind: Kind) -> Layout {
    Layout::Maybe(Box::new(Layout::Scalar(kind)))
}

/// The shape of a text with a second text that may be absent.
pub open spec fn pair_layout() -> Layout {
    Layout::Struct(seq![slot(Layout::Scalar(Kind::Text)), slot(maybe_layout(Kind::Text))])
}

/// The shape of a pair that may be absent.
pub open spec fn maybe_pair_layout() -> Layout {
    Layout::Maybe(Box::new(pair_layout()))
}

/// What the fields of a struct describe.
pub open spec fn slots(fields: Seq<Field>) -> Seq<Slot> {
    Seq::new(fields.len(), |i: int| Slot { layout: fields[i].shape@, has_default: fields[i].has_default })
}

/// What the values of the fields of a struct hold.
pub open spec fn data(values: Seq<Value>) -> Seq<Datum> {
    Seq::new(values.len(), |i: int| values[i]@)
}

/// A field of the given shape, without a default.
pub fn field(shape: Shape) -> (f: Field)
    ensures
        f.shape == shape,
        !f.has_default,
{
    Field { shape, has_default: false }
}

/// A field of the given shape that takes its default when the frame ends
/// before it.
pub fn field_or_default(shape: Shape) -> (f: Field)
    ensures
        f.shape == shape,
        f.has_default,
{
    Field { shape, has_default: true }
}

/// The shape of a scalar.
pub fn scalar_shape(kind: Kind) -> (shape: Shape)
    ensures
        shape@ == Layout::Scalar(kind),
{
    Shape::Scalar(kind)
}

/// The shape of a scalar that may be absent.
pub fn maybe_shape(kind: Kind) -> (shape: Shape)
    ensures
        shape@ == maybe_layout(kind),
{
    proof {
        reveal_with_fuel(Shape::layout, 2);
    }
    Shape::Maybe(Box::new(Shape::Scalar(kind)))
}

/// The shape of a struct of the given fields.
pub fn struct_shape(fields: Vec<Field>) -> (shape: Shape)
    ensures
        shape@ == Layout::Struct(slots(fields@)),
{
    let shape = Shape::Struct(fields);
    assert(shape@->Struct_0 =~= slots(fields@));
    shape
}

/// The shape of a pair that may be absent.
pub fn maybe_pair_shape() -> (shape: Shape)
    ensures
        shape@ == maybe_pair_layout(),
{
    let mut fields: Vec<Field> = Vec::new();
    fields.push(field(scalar_shape(Kind::Text)));
    fields.push(field(maybe_shape(Kind::Text)));
    let inner = struct_shape(fields);
    assert(slots(fields@) =~= pair_layout()->Struct_0);
    Shape::Maybe(Box::new(inner))
}

/// A text field.
pub fn text_value(s: &String) -> (value: Value)
    ensures
        value@ == text(s@),
{
    Value::Scalar(Scalar::Text(s.clone()))
}

/// A number field.
pub fn number_value(n: u64) -> (value: Value)
    ensures
        value@ == number(n),
{
    Value::Scalar(Scalar::Number(n))
}

/// A flag field.
pub fn flag_value(b: bool) -> (value: Value)
    ensures
        value@ == flag(b),
{
    Value::Scalar(Scalar::Flag(b))
}

/// A role field.
pub fn role_value(r: ConnectRole) -> (value: Value)
    ensures
        value@ == role(r),
{
    Value::Scalar(Scalar::Role(r))
}

/// A level field.
pub fn level_value(l: DebugLevel) -> (value: Value)
    ensures
        value@ == level(l),
{
    Value::Scalar(Scalar::Level(l))
}

/// A map field.
pub fn params_value(params: &Params) -> (value: Value)
    ensures
        value@ == Datum::Pairs(params@),
{
    Value::Pairs(params.clone())
}

/// A field that may be absent.
pub fn maybe_value(inner: Option<Value>) -> (value: Value)
    ensures
        value@ == maybe(
            match inner {
                Some(v) => Some(v@),
                None => None,
            },
        ),
{
    match inner {
        Some(v) => Value::Present(Box::new(v)),
        None => Value::Absent,
    }
}

/// A text field that may be absent.
pub fn maybe_text_value(s: &Option<String>) -> (value: Value)
    ensures
        value@ == maybe_text(*s),
{
    match s {
        Some(s) => maybe_value(Some(text_value(s))),
        None => Value::Absent,
    }
}

/// A number field that may be absent.
pub fn maybe_number_value(n: Option<u64>) -> (value: Value)
    ensures
        value@ == maybe_number(n),
{
    match n {
        Some(n) => maybe_value(Some(number_value(n))),
        None => Value::Absent,
    }
}

/// The values of the fields of a struct.
pub fn struct_value(values: Vec<Value>) -> (value: Value)
    ensures
        value@ == Datum::Struct(data(values@)),
{
    let value = Value::Struct(values);
    assert(value@->Struct_0 =~= data(values@));
    value
}

/// A pair that may be absent.
pub fn maybe_pair_value(p: &Option<(String, Option<String>)>) -> (value: Value)
    ensures
        value@ == maybe_pair(*p),
        value@.fits(maybe_pair_layout()),
{
    proof {
        reveal_with_fuel(Datum::fits, 4);
    }
    match p {
        Some(p) => {
            let mut values: Vec<Value> = Vec::new();
            values.push(text_value(&p.0));
            values.push(maybe_text_value(&p.1));
            let inner = struct_value(values);
            assert(data(values@) =~= pair(*p)->Struct_0);
            maybe_value(Some(inner))
        },
        None => Value::Absent,
    }
}

impl Value {
    /// The values of the fields, if the value is a struct of `count` fields.
    pub fn into_fields_of(self, count: usize) -> (r: Option<Vec<Value>>)
        ensures
            match r {
                Some(values) => self@ == Datum::Struct(data(values@)) && values.len() == count,
                None => !(self@ matches Datum::Struct(all) && all.len() == count),
            },
    {
        match self.into_fields() {
            Some(values) => {
                if values.len() == count {
                    Some(values)
                } else {
                    None
                }
            },
            None => None,
        }
    }

    /// The values of the fields, if the value is a struct.
    pub fn into_fields(self) -> (r: Option<Vec<Value>>)
        ensures
            match r {
                Some(values) => self@ == Datum::Struct(data(values@)),
                None => !(self@ is Struct),
            },
    {
        match self {
            Value::Struct(values) => {
                assert(self@->Struct_0 =~= data(values@));
                Some(values)
            },
            _ => None,
        }
    }

    /// The scalar, if the value is one.
    pub fn into_scalar(self) -> (r: Option<Scalar>)
        ensures
            match r {
                Some(scalar) => self@ == Datum::Scalar(scalar@),
                None => !(self@ is Scalar),
            },
    {
        match self {
            Value::Scalar(scalar) => Some(scalar),
            _ => None,
        }
    }

    /// The text, if the value is one.
    pub fn into_text(self) -> (r: Option<String>)
        ensures
            match r {
                Some(s) => self@ == text(s@),
                None => !self@.fits(Layout::Scalar(Kind::Text)),
            },
    {
        match self {
            Value::Scalar(Scalar::Text(s)) => Some(s),
            _ => None,
        }
    }

    /// The number, if the value is one.
    pub fn into_number(self) -> (r: Option<u64>)
        ensures
            match r {
                Some(n) => self@ == number(n),
                None => !self@.fits(Layout::Scalar(Kind::Number)),
            },
    {
        match self {
            Value::Scalar(Scalar::Number(n)) => Some(n),
            _ => None,
        }
    }

    /// The flag, if the value is one.
    pub fn into_flag(self) -> (r: Option<bool>)
        ensures
            match r {
                Some(b) => self@ == flag(b),
                None => !self@.fits(Layout::Scalar(Kind::Flag)),
            },
    {
        match self {
            Value::Scalar(Scalar::Flag(b)) => Some(b),
            _ => None,
        }
    }

    /// The role, if the value is one.
    pub fn into_role(self) -> (r: Option<ConnectRole>)
        ensures
            match r {
                Some(x) => self@ == role(x),
                None => !self@.fits(Layout::Scalar(Kind::Role)),
            },
    {
        match self {
            Value::Scalar(Scalar::Role(x)) => Some(x),
            _ => None,
        }
    }

    /// The level, if the value is one.
    pub fn into_level(self) -> (r: Option<DebugLevel>)
        ensures
            match r {
                Some(x) => self@ == level(x),
                None => !self@.fits(Layout::Scalar(Kind::Level)),
            },
    {
        match self {
            Value::Scalar(Scalar::Level(x)) => Some(x),
            _ => None,
        }
    }

    /// The parameters, if the value is a map.
    pub fn into_params(self) -> (r: Option<Params>)
        ensures
            match r {
                Some(params) => self@ == Datum::Pairs(params@),
                None => !self@.fits(Layout::Pairs),
            },
    {
        match self {
            Value::Pairs(params) => Some(params),
            _ => None,
        }
    }

    /// The value that is present, or none for the absent value, if the value
    /// is one that may be absent.
    pub fn into_maybe(self) -> (r: Option<Option<Value>>)
        ensures
            match r {
                Some(Some(inner)) => self@ == maybe(Some(inner@)),
                Some(None) => self@ == Datum::Absent,
                None => !(self@ is Absent || self@ is Present),
            },
    {
        match self {
            Value::Absent => Some(None),
            Value::Present(inner) => Some(Some(*inner)),
            _ => None,
        }
    }

    /// The text that may be absent, if the value is one.
    pub fn into_maybe_text(self) -> (r: Option<Option<String>>)
        ensures
            match r {
                Some(s) => self@ == maybe_text(s),
                None => !self@.fits(maybe_layout(Kind::Text)),
            },
    {
        match self.into_maybe() {
            Some(Some(inner)) => match inner.into_text() {
                Some(s) => Some(Some(s)),
                None => None,
            },
            Some(None) => Some(None),
            None => None,
        }
    }

    /// The number that may be absent, if the value is one.
    pub fn into_maybe_number(self) -> (r: Option<Option<u64>>)
        ensures
            match r {
                Some(n) => self@ == maybe_number(n),
                None => !self@.fits(maybe_layout(Kind::Number)),
            },
    {
        match self.into_maybe() {
            Some(Some(inner)) => match inner.into_number() {
                Some(n) => Some(Some(n)),
                None => None,
            },
            Some(None) => Some(None),
            None => None,
        }
    }

    /// The pair that may be absent, if the value is one.
    pub fn into_maybe_pair(self) -> (r: Option<Option<(String, Option<String>)>>)
        ensures
            match r {
                Some(p) => self@ == maybe_pair(p),
                None => !self@.fits(maybe_pair_layout()),
            },
    {
        proof {
            reveal_with_fuel(Datum::fits, 4);
        }
        match self.into_maybe() {
            Some(Some(inner)) => {
                match inner.into_fields() {
                    Some(mut values) => {
                        if values.len() != 2 {
                            return None;
                        }
                        let ghost all = data(values@);
                        let second = values.pop().unwrap();
                        let first = values.pop().unwrap();
                        assert(first@ == all[0] && second@ == all[1]);
                        let first = match first.into_text() {
                            Some(s) => s,
                            None => {
                                return None;
                            },
                        };
                        let second = match second.into_maybe_text() {
                            Some(s) => s,
                            None => {
                                return None;
                            },
                        };
                        assert(all =~= pair((first, second))->Struct_0);
                        Some(Some((first, second)))
                    },
                    None => None,
                }
            },
            Some(None) => Some(None),
            None => None,
        }
    }
}

} // verus!
