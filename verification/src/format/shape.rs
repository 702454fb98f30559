//! The shapes that the values of a record may have, and the values
//! themselves in a form that does not depend on the record.
//!
//! A record is described by its tag and the shape of its fields; the
//! serializer and the deserializer work from that description alone.

use super::params::Params;
use super::scalar::{default_atom, Atom, Kind, Scalar};
use vstd::prelude::*;

verus! {

/// The shape of a value.
#[derive(Debug)]
pub enum Shape {
    /// A scalar, in one segment.
    Scalar(Kind),
    /// A value that may be absent. An empty segment stands for the absent
    /// value.
    Maybe(Box<Shape>),
    /// A map from text to text, one segment `key=value` for each entry, up to
    /// the end of the frame.
    Pairs,
    /// Fields in their declared order.
    Struct(Vec<Field>),
    /// Text that takes the rest of the frame as it is, neither split at its
    /// colons nor escaped.
    Rest,
}

/// A field of a [`Shape::Struct`].
#[derive(Debug)]
pub struct Field {
    /// The shape of the field's value.
    pub shape: Shape,
    /// Whether the field takes its default when the frame ends before it.
    pub has_default: bool,
}

/// What a [`Shape`] describes.
pub enum Layout {
    Scalar(Kind),
    Maybe(Box<Layout>),
    Pairs,
    Struct(Seq<Slot>),
    Rest,
}

/// What a [`Field`] describes.
pub struct Slot {
    pub layout: Layout,
    pub has_default: bool,
}

/// A value of some shape.
#[derive(Debug)]
pub enum Value {
    /// A scalar.
    Scalar(Scalar),
    /// The absent value of a [`Shape::Maybe`].
    Absent,
    /// A present value of a [`Shape::Maybe`].
    Present(Box<Value>),
    /// The entries of a [`Shape::Pairs`].
    Pairs(Params),
    /// The values of the fields of a [`Shape::Struct`].
    Struct(Vec<Value>),
}

/// What a [`Value`] holds.
pub enum Datum {
    Scalar(Atom),
    Absent,
    Present(Box<Datum>),
    Pairs(Seq<(Seq<char>, Seq<char>)>),
    Struct(Seq<Datum>),
}

impl Shape {
    /// What the shape describes.
    pub open spec fn layout(self) -> Layout
        decreases self,
    {
        match self {
            Shape::Scalar(kind) => Layout::Scalar(kind),
            Shape::Maybe(inner) => Layout::Maybe(Box::new((*inner).layout())),
            Shape::Pairs => Layout::Pairs,
            Shape::Rest => Layout::Rest,
            Shape::Struct(fields) => Layout::Struct(
                Seq::new(
                    fields.len() as nat,
                    |i: int|
                        if 0 <= i < fields.len() {
                            Slot { layout: fields[i].shape.layout(), has_default: fields[i].has_default }
                        } else {
                            Slot { layout: Layout::Pairs, has_default: false }
                        },
                ),
            ),
        }
    }
}

impl View for Shape {
    type V = Layout;

    open spec fn view(&self) -> Layout {
        self.layout()
    }
}

impl Value {
    /// What the value holds.
    pub open spec fn datum(self) -> Datum
        decreases self,
    {
        match self {
            Value::Scalar(scalar) => Datum::Scalar(scalar@),
            Value::Absent => Datum::Absent,
            Value::Present(inner) => Datum::Present(Box::new((*inner).datum())),
            Value::Pairs(params) => Datum::Pairs(params@),
            Value::Struct(fields) => Datum::Struct(
                Seq::new(
                    fields.len() as nat,
                    |i: int|
                        if 0 <= i < fields.len() {
                            fields[i].datum()
                        } else {
                            Datum::Absent
                        },
                ),
            ),
        }
    }
}

impl View for Value {
    type V = Datum;

    open spec fn view(&self) -> Datum {
        self.datum()
    }
}

impl Datum {
    /// Whether the value has the given shape.
    pub open spec fn fits(self, layout: Layout) -> bool
        decreases layout,
    {
        match layout {
            Layout::Scalar(kind) => self matches Datum::Scalar(atom) && atom.kind() == kind,
            Layout::Maybe(inner) => self is Absent || (self matches Datum::Present(value)
                && (*value).fits(*inner)),
            Layout::Pairs => self is Pairs,
            Layout::Struct(slots) => self matches Datum::Struct(values) && values.len()
                == slots.len() && forall|i: int|
                0 <= i < slots.len() ==> (#[trigger] values[i]).fits(slots[i].layout),
            Layout::Rest => self matches Datum::Scalar(atom) && atom is Text,
        }
    }
}

/// The default values of the first `n` slots, where each has one.
pub open spec fn default_fields(slots: Seq<Slot>, n: nat) -> Option<Seq<Datum>>
    decreases slots, n,
{
    if n == 0 || n > slots.len() {
        Some(Seq::empty())
    } else {
        match (default_fields(slots, (n - 1) as nat), default_datum(slots[n - 1].layout)) {
            (Some(before), Some(last)) => Some(before.push(last)),
            _ => None,
        }
    }
}

/// The value that a field of the given shape takes when the frame ends
/// before it, where the shape has one: the absent value, the empty map, the
/// default of a scalar, and for a struct the defaults of its fields.
pub open spec fn default_datum(layout: Layout) -> Option<Datum>
    decreases layout, 0nat,
{
    match layout {
        Layout::Scalar(kind) => match default_atom(kind) {
            Some(atom) => Some(Datum::Scalar(atom)),
            None => None,
        },
        Layout::Maybe(_) => Some(Datum::Absent),
        Layout::Pairs => Some(Datum::Pairs(Seq::empty())),
        Layout::Rest => Some(Datum::Scalar(Atom::Text(Seq::empty()))),
        Layout::Struct(slots) => match default_fields(slots, slots.len()) {
            Some(values) => Some(Datum::Struct(values)),
            None => None,
        },
    }
}

/// Where some of the first fields have no default, more of them have none
/// either.
proof fn lemma_default_fields_none(slots: Seq<Slot>, m: nat, n: nat)
    requires
        default_fields(slots, m) is None,
        m <= n <= slots.len(),
    ensures
        default_fields(slots, n) is None,
    decreases n - m,
{
    if m < n {
        lemma_default_fields_none(slots, m, (n - 1) as nat);
    }
}

impl Shape {
    /// The value that a field of this shape takes when the frame ends before
    /// it, if the shape has one.
    pub fn default_value(&self) -> (r: Option<Value>)
        ensures
            match r {
                Some(value) => default_datum(self@) == Some(value@),
                None => default_datum(self@) is None,
            },
        decreases self,
    {
        match self {
            Shape::Scalar(kind) => match Scalar::default_of(*kind) {
                Some(scalar) => Some(Value::Scalar(scalar)),
                None => None,
            },
            Shape::Maybe(_) => Some(Value::Absent),
            Shape::Pairs => Some(Value::Pairs(Params::new())),
            Shape::Rest => Some(Value::Scalar(Scalar::Text(String::new()))),
            Shape::Struct(fields) => {
                let ghost slots = self@->Struct_0;
                let mut values: Vec<Value> = Vec::new();
                let mut i: usize = 0;
                while i < fields.len()
                    invariant
                        i <= fields.len(),
                        self == Shape::Struct(*fields),
                        slots == self@->Struct_0,
                        values.len() == i,
                        default_fields(slots, i as nat) == Some(Value::Struct(values)@->Struct_0),
                    decreases fields.len() - i,
                {
                    let ghost before = Value::Struct(values)@->Struct_0;
                    assert(slots[i as int].layout == fields[i as int].shape@);
                    match fields[i].shape.default_value() {
                        Some(value) => {
                            values.push(value);
                            assert(Value::Struct(values)@->Struct_0 =~= before.push(value@));
                        },
                        None => {
                            proof {
                                assert(default_fields(slots, (i + 1) as nat) is None);
                                lemma_default_fields_none(slots, (i + 1) as nat, slots.len());
                            }
                            return None;
                        },
                    }
                    i += 1;
                }
                Some(Value::Struct(values))
            },
        }
    }
}

} // verus!
