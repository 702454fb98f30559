//! Serialization of values into the segments of a frame.

use super::params::Params;
use super::scalar::Scalar;
use super::shape::{Datum, Layout, Shape, Slot, Value};
use super::text::{cut, join, joined, pieces, texts};
use super::upcode::{encode, encode_spec};
use std::borrow::Cow;
use vstd::prelude::*;

verus! {

/// The segment of one entry of a map: the encoded key, `=`, the encoded value.
pub open spec fn entry_wire(entry: (Seq<char>, Seq<char>)) -> Seq<char> {
    encode_spec(entry.0).push('=') + encode_spec(entry.1)
}

/// The segments of the entries of a map, in the order of the entries.
pub open spec fn pairs_wire(entries: Seq<(Seq<char>, Seq<char>)>) -> Seq<Seq<char>> {
    Seq::new(entries.len(), |i: int| entry_wire(entries[i]))
}

/// The shape of the value that a present value of the given shape wraps.
pub open spec fn inner_layout(layout: Layout) -> Layout {
    match layout {
        Layout::Maybe(inner) => *inner,
        _ => layout,
    }
}

/// The slots of a struct of the given shape.
pub open spec fn slots_of(layout: Layout) -> Seq<Slot> {
    match layout {
        Layout::Struct(slots) => slots,
        _ => Seq::empty(),
    }
}

/// The segments of the first `n` fields of a struct.
pub open spec fn wire_fields(values: Seq<Datum>, slots: Seq<Slot>, has_default: bool, n: nat) -> Seq<
    Seq<char>,
>
    decreases values, n,
{
    if n == 0 || n > values.len() {
        Seq::empty()
    } else {
        wire_fields(values, slots, has_default, (n - 1) as nat) + wire(
            values[n - 1],
            slots[n - 1].layout,
            has_default || slots[n - 1].has_default,
        )
    }
}

/// The segments that a value of the given shape is written as.
///
/// A scalar is one segment, its text encoded; where it takes the rest of the
/// frame its text is written as it is, which makes a segment of each piece
/// between its colons. An absent value is an empty
/// segment, or nothing at all where a default stands behind it; a present
/// value is written as the value itself. A map is one segment for each entry.
/// A struct is its fields in order, each with a default behind it if it
/// declares one or the struct has one behind it.
pub open spec fn wire(value: Datum, layout: Layout, has_default: bool) -> Seq<Seq<char>>
    decreases value, 0nat,
{
    match value {
        Datum::Scalar(atom) => if layout is Rest {
            pieces(atom.text(), ':')
        } else {
            seq![encode_spec(atom.text())]
        },
        Datum::Absent => if has_default {
            Seq::empty()
        } else {
            seq![Seq::empty()]
        },
        Datum::Present(inner) => wire(*inner, inner_layout(layout), has_default),
        Datum::Pairs(entries) => pairs_wire(entries),
        Datum::Struct(values) => wire_fields(values, slots_of(layout), has_default, values.len()),
    }
}

/// The segments of a record: its tag, then its value.
pub open spec fn wire_record(tag: Seq<char>, value: Datum, layout: Layout) -> Seq<Seq<char>> {
    seq![tag] + wire(value, layout, false)
}

/// Collects the segments of a frame.
pub struct Serializer {
    parts: Vec<String>,
}

impl View for Serializer {
    type V = Seq<Seq<char>>;

    closed spec fn view(&self) -> Seq<Seq<char>> {
        texts(self.parts@)
    }
}

impl Default for Serializer {
    fn default() -> (ser: Serializer)
        ensures
            ser@ == Seq::<Seq<char>>::empty(),
    {
        let ser = Serializer { parts: Vec::new() };
        assert(texts(ser.parts@) =~= Seq::empty());
        ser
    }
}

impl Serializer {
    /// Add a segment.
    fn push(&mut self, part: String)
        ensures
            final(self)@ == old(self)@.push(part@),
    {
        self.parts.push(part);
        assert(texts(self.parts@) =~= texts(old(self).parts@).push(part@));
    }

    /// Write the tag of a record. It is not escaped.
    pub fn serialize_tag(&mut self, tag: &str)
        ensures
            final(self)@ == old(self)@.push(tag@),
    {
        self.push(tag.to_owned());
    }

    /// Write a scalar: its text, encoded.
    pub fn serialize_scalar(&mut self, scalar: &Scalar)
        ensures
            final(self)@ == old(self)@.push(encode_spec(scalar@.text())),
    {
        let text = scalar.to_text();
        let part = match encode(text.as_str()) {
            Cow::Borrowed(plain) => plain.to_owned(),
            Cow::Owned(escaped) => escaped,
        };
        self.push(part);
    }

    /// Write a text as it is: one segment for each piece between its colons.
    pub fn serialize_rest(&mut self, scalar: &Scalar)
        ensures
            final(self)@ == old(self)@ + pieces(scalar@.text(), ':'),
    {
        let text = scalar.to_text();
        let mut parts = cut(text.as_str(), ':');
        let ghost all = texts(parts@);
        let ghost mut taken: Seq<Seq<char>> = Seq::empty();
        assert(taken + texts(parts@) =~= all);
        assert(self@ + taken =~= self@);
        loop
            invariant
                taken + texts(parts@) == all,
                self@ == old(self)@ + taken,
            ensures
                self@ == old(self)@ + all,
            decreases parts@.len(),
        {
            let ghost left = texts(parts@);
            match parts.pop_front() {
                Some(part) => {
                    assert(part@ == left[0]);
                    self.push(part);
                    proof {
                        assert(texts(parts@) =~= left.drop_first());
                        assert(taken.push(left[0]) + texts(parts@) =~= taken + left);
                        assert(self@ =~= old(self)@ + taken.push(left[0]));
                        taken = taken.push(left[0]);
                    }
                },
                None => {
                    assert(taken + left =~= taken);
                    break ;
                },
            }
        }
    }

    /// Write a value that may be absent.
    pub fn serialize_option(&mut self, value: &Value, shape: &Shape, has_default: bool)
        requires
            value@.fits(shape@),
            value is Absent || value is Present,
        ensures
            final(self)@ == old(self)@ + wire(value@, shape@, has_default),
        decreases value, 0nat,
    {
        match value {
            Value::Absent => {
                if !has_default {
                    self.push(String::new());
                }
                assert(self@ =~= old(self)@ + wire(value@, shape@, has_default));
            },
            Value::Present(inner) => {
                if let Shape::Maybe(inner_shape) = shape {
                    self.serialize_value(&**inner, &**inner_shape, has_default);
                }
            },
            _ => {},
        }
    }

    /// Write the entries of a map, in the order of their keys.
    pub fn serialize_map(&mut self, params: &Params)
        ensures
            final(self)@ == old(self)@ + pairs_wire(params@),
    {
        let mut i: usize = 0;
        while i < params.len()
            invariant
                i <= params@.len(),
                self@ == old(self)@ + pairs_wire(params@).take(i as int),
            decreases params@.len() - i,
        {
            let mut part = match encode(params.key(i)) {
                Cow::Borrowed(plain) => plain.to_owned(),
                Cow::Owned(escaped) => escaped,
            };
            part.push('=');
            match encode(params.value(i)) {
                Cow::Borrowed(plain) => part.append(plain),
                Cow::Owned(escaped) => part.append(escaped.as_str()),
            }
            self.push(part);
            assert(self@ =~= old(self)@ + pairs_wire(params@).take(i as int + 1));
            i += 1;
        }
        assert(pairs_wire(params@).take(params@.len() as int) == pairs_wire(params@));
    }

    /// Write a value of the given shape.
    pub fn serialize_value(&mut self, value: &Value, shape: &Shape, has_default: bool)
        requires
            value@.fits(shape@),
        ensures
            final(self)@ == old(self)@ + wire(value@, shape@, has_default),
        decreases value, 1nat,
    {
        match value {
            Value::Scalar(scalar) => {
                if let Shape::Rest = shape {
                    self.serialize_rest(scalar);
                } else {
                    self.serialize_scalar(scalar);
                    assert(self@ =~= old(self)@ + wire(value@, shape@, has_default));
                }
            },
            Value::Absent => {
                self.serialize_option(value, shape, has_default);
            },
            Value::Present(_) => {
                self.serialize_option(value, shape, has_default);
            },
            Value::Pairs(params) => {
                self.serialize_map(params);
            },
            Value::Struct(values) => {
                if let Shape::Struct(fields) = shape {
                    let ghost data = value@->Struct_0;
                    let ghost slots = shape@->Struct_0;
                    let mut i: usize = 0;
                    while i < values.len()
                        invariant
                            i <= values.len(),
                            values.len() == fields.len(),
                            value == Value::Struct(*values),
                            shape == Shape::Struct(*fields),
                            data == value@->Struct_0,
                            slots == shape@->Struct_0,
                            value@.fits(shape@),
                            self@ == old(self)@ + wire_fields(data, slots, has_default, i as nat),
                        decreases values.len() - i,
                    {
                        assert(data[i as int] == values[i as int]@);
                        assert(slots[i as int].layout == fields[i as int].shape@);
                        assert(data[i as int].fits(slots[i as int].layout));
                        self.serialize_value(
                            &values[i],
                            &fields[i].shape,
                            has_default || fields[i].has_default,
                        );
                        assert(self@ =~= old(self)@ + wire_fields(
                            data,
                            slots,
                            has_default,
                            (i + 1) as nat,
                        ));
                        i += 1;
                    }
                }
            },
        }
    }

    /// Write a record, and join what was written into a frame.
    pub fn serialize(self, tag: &str, value: &Value, shape: &Shape) -> (frame: String)
        requires
            value@.fits(shape@),
        ensures
            frame@ == joined(self@ + wire_record(tag@, value@, shape@), ':'),
    {
        let mut ser = self;
        ser.serialize_tag(tag);
        ser.serialize_value(value, shape, false);
        assert(ser@ =~= self@ + wire_record(tag@, value@, shape@));
        join(&ser.parts)
    }
}

} // verus!
