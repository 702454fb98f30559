//! Records: the typed messages of the protocol, each with a tag and a shape.

use super::de::{parse_fields, parse_maybe, parse_record, parse_value, Deserializer};
use super::error::Error;
use super::ser::{wire_record, Serializer};
use super::shape::{default_datum, default_fields, Datum, Layout, Shape, Slot, Value};
use super::text::{joined, lemma_pieces_nonempty, segments, split};
use vstd::prelude::*;

verus! {

/// A message of the protocol.
pub trait Record: Sized {
    /// The tag of the record: the first segment of its frames.
    spec fn tag() -> Seq<char>;

    /// What the shape of the record describes.
    spec fn layout() -> Layout;

    /// What the record holds, as a value of its shape.
    spec fn datum(&self) -> Datum;

    /// The tag of the record.
    fn type_tag() -> (tag: &'static str)
        ensures
            tag@ == Self::tag(),
    ;

    /// The shape of the record.
    fn shape() -> (shape: Shape)
        ensures
            shape@ == Self::layout(),
    ;

    /// The record as a value of its shape.
    fn to_value(&self) -> (value: Value)
        ensures
            value@ == self.datum(),
            value@.fits(Self::layout()),
    ;

    /// The record that a value of its shape stands for. A value of another
    /// shape is an error.
    fn from_value(value: Value) -> (r: Result<Self, Error>)
        ensures
            match r {
                Ok(record) => record.datum() == value@,
                Err(e) => e == Error::Reflect && !value@.fits(Self::layout()),
            },
    ;
}

/// The defaults of fields have the shapes of the fields.
pub proof fn lemma_default_fields_fit(slots: Seq<Slot>, n: nat)
    requires
        n <= slots.len(),
    ensures
        default_fields(slots, n) matches Some(values) ==> values.len() == n && forall|i: int|
            0 <= i < n ==> (#[trigger] values[i]).fits(slots[i].layout),
    decreases slots, n,
{
    if n > 0 {
        lemma_default_fields_fit(slots, (n - 1) as nat);
        lemma_default_fits(slots[n - 1].layout);
    }
}

/// The default of a shape has that shape.
pub proof fn lemma_default_fits(layout: Layout)
    ensures
        default_datum(layout) matches Some(value) ==> value.fits(layout),
    decreases layout, 0nat,
{
    match layout {
        Layout::Struct(slots) => {
            lemma_default_fields_fit(slots, slots.len());
        },
        _ => {},
    }
}

/// The values that are read for fields have the shapes of the fields.
pub proof fn lemma_parse_fields_fit(slots: Seq<Slot>, from: int, parts: Seq<Seq<char>>, has_default: bool)
    requires
        0 <= from <= slots.len(),
    ensures
        parse_fields(slots, from, parts, has_default) matches Ok(fields) ==> fields.values.len()
            == slots.len() - from && forall|i: int|
            0 <= i < fields.values.len() ==> (#[trigger] fields.values[i]).fits(slots[from + i].layout),
    decreases slots, slots.len() - from,
{
    if from < slots.len() {
        let d = has_default || slots[from].has_default;
        lemma_parse_fits(slots[from].layout, parts, d);
        if let Ok(first) = parse_value(slots[from].layout, parts, d) {
            lemma_parse_fields_fit(slots, from + 1, first.rest, has_default);
            if let Ok(rest) = parse_fields(slots, from + 1, first.rest, has_default) {
                let values = seq![first.value] + rest.values;
                assert forall|i: int| 0 <= i < values.len() implies (#[trigger] values[i]).fits(
                    slots[from + i].layout,
                ) by {
                    if i > 0 {
                        assert(values[i] == rest.values[i - 1]);
                    }
                }
            }
        }
    }
}

/// A value that is read for a shape has that shape.
pub proof fn lemma_parse_fits(layout: Layout, parts: Seq<Seq<char>>, has_default: bool)
    ensures
        parse_value(layout, parts, has_default) matches Ok(parsed) ==> parsed.value.fits(layout),
    decreases layout, 0nat,
{
    if parts.len() == 0 && has_default {
        lemma_default_fits(layout);
    } else {
        match layout {
            Layout::Scalar(kind) => {},
            Layout::Maybe(inner) => {
                lemma_parse_fits(*inner, parts, has_default);
            },
            Layout::Pairs => {},
            Layout::Struct(slots) => {
                lemma_parse_fields_fit(slots, 0, parts, has_default);
            },
            Layout::Rest => {},
        }
    }
}

/// What a frame stands for, read as the record `T`.
pub open spec fn read<T: Record>(frame: Seq<char>) -> Result<Datum, Error> {
    parse_record(T::tag(), T::layout(), segments(frame))
}

/// The frame of a record.
pub open spec fn frame<T: Record>(record: T) -> Seq<char> {
    joined(wire_record(T::tag(), record.datum(), T::layout()), ':')
}

/// An empty frame has no tag, and a frame whose first segment is not the tag
/// of the record has the wrong tag, whatever else it holds.
pub proof fn lemma_tag_errors<T: Record>(input: Seq<char>)
    ensures
        input.len() == 0 ==> read::<T>(input) == Err::<Datum, Error>(Error::MissingTag),
        input.len() > 0 && segments(input)[0] != T::tag() ==> read::<T>(input) == Err::<
            Datum,
            Error,
        >(Error::MismatchedTag),
{
    lemma_pieces_nonempty(input, ':');
}

/// Deserialize a record from its textual representation.
pub fn from_str<T: Record>(input: &str) -> (r: Result<T, Error>)
    ensures
        match read::<T>(input@) {
            Ok(value) => r matches Ok(record) && record.datum() == value,
            Err(e) => r matches Err(error) && error == e,
        },
        input@.len() == 0 ==> (r matches Err(error) && error == Error::MissingTag),
        input@.len() > 0 && segments(input@)[0] != T::tag() ==> (r matches Err(error) && error
            == Error::MismatchedTag),
{
    proof {
        lemma_tag_errors::<T>(input@);
    }
    let de = Deserializer::new(split(input));
    let shape = T::shape();
    let value = de.deserialize(T::type_tag(), &shape)?;
    proof {
        lemma_parse_fits(T::layout(), segments(input@).drop_first(), false);
    }
    T::from_value(value)
}

/// Serialize a record to its textual representation.
pub fn to_string<T: Record>(value: &T) -> (line: String)
    ensures
        line@ == frame(*value),
{
    let ser = Serializer::default();
    let shape = T::shape();
    let data = value.to_value();
    assert(ser@ + wire_record(T::tag(), value.datum(), T::layout()) =~= wire_record(
        T::tag(),
        value.datum(),
        T::layout(),
    ));
    ser.serialize(T::type_tag(), &data, &shape)
}

} // verus!
