//! Deserialization of values from the segments of a frame.

use super::error::Error;
use super::params::{put, Params};
use super::scalar::{atom_of, Atom, Kind, Scalar};
use super::shape::{default_datum, Datum, Layout, Shape, Slot, Value};
use super::text::{join, joined, same, texts};
use super::upcode::{decode, decode_spec};
use std::borrow::Cow;
use std::collections::VecDeque;
use vstd::prelude::*;

verus! {

/// A value that was read, and the segments that are left after it.
pub struct Parsed {
    pub value: Datum,
    pub rest: Seq<Seq<char>>,
}

/// The values of fields that were read, and the segments that are left after
/// them.
pub struct ParsedFields {
    pub values: Seq<Datum>,
    pub rest: Seq<Seq<char>>,
}

/// The index of the first `c` in `s`, or the length of `s` if there is none.
pub open spec fn find(s: Seq<char>, c: char) -> int
    decreases s.len(),
{
    if s.len() == 0 || s[0] == c {
        0
    } else {
        1 + find(s.drop_first(), c)
    }
}

/// The text that an encoded segment stands for.
pub open spec fn decoded(segment: Seq<char>) -> Result<Seq<char>, Error> {
    match decode_spec(segment) {
        Ok(text) => Ok(text),
        Err(e) => Err(Error::InvalidUpcode(e)),
    }
}

/// The entry that a segment `key=value` stands for: it is split at its first
/// `=`, and both sides are decoded.
pub open spec fn entry_of(segment: Seq<char>) -> Result<(Seq<char>, Seq<char>), Error> {
    let at = find(segment, '=');
    match decoded(segment.take(at)) {
        Ok(key) => match decoded(segment.skip(at + 1)) {
            Ok(value) => Ok((key, value)),
            Err(e) => Err(e),
        },
        Err(e) => Err(e),
    }
}

/// The entries after those of the segments were put into them, in order.
pub open spec fn entries_of(parts: Seq<Seq<char>>, entries: Seq<(Seq<char>, Seq<char>)>) -> Result<
    Seq<(Seq<char>, Seq<char>)>,
    Error,
>
    decreases parts.len(),
{
    if parts.len() == 0 {
        Ok(entries)
    } else {
        match entry_of(parts[0]) {
            Ok(entry) => entries_of(parts.drop_first(), put(entries, entry.0, entry.1)),
            Err(e) => Err(e),
        }
    }
}

/// The map that the segments stand for. A segment without `=` anywhere among
/// them is an error, whatever else they hold.
pub open spec fn parse_pairs(parts: Seq<Seq<char>>) -> Result<Seq<(Seq<char>, Seq<char>)>, Error> {
    if exists|i: int| 0 <= i < parts.len() && !(#[trigger] parts[i]).contains('=') {
        Err(Error::MisformedMap)
    } else {
        entries_of(parts, Seq::empty())
    }
}

/// The scalar that the first segment stands for.
pub open spec fn parse_scalar(kind: Kind, parts: Seq<Seq<char>>) -> Result<Parsed, Error> {
    if parts.len() == 0 {
        Err(Error::MissingValue)
    } else {
        match decoded(parts[0]) {
            Ok(text) => match atom_of(kind, text) {
                Some(atom) => Ok(Parsed { value: Datum::Scalar(atom), rest: parts.drop_first() }),
                None => Err(Error::Reflect),
            },
            Err(e) => Err(e),
        }
    }
}

/// The values of the fields from `from` on.
pub open spec fn parse_fields(slots: Seq<Slot>, from: int, parts: Seq<Seq<char>>, has_default: bool) -> Result<
    ParsedFields,
    Error,
>
    decreases slots, slots.len() - from,
{
    if from < 0 || from >= slots.len() {
        Ok(ParsedFields { values: Seq::empty(), rest: parts })
    } else {
        match parse_value(slots[from].layout, parts, has_default || slots[from].has_default) {
            Ok(first) => fields_after(
                seq![first.value],
                parse_fields(slots, from + 1, first.rest, has_default),
            ),
            Err(e) => Err(e),
        }
    }
}

/// Values that were read, followed by what the rest of the fields gave.
pub open spec fn fields_after(values: Seq<Datum>, rest: Result<ParsedFields, Error>) -> Result<
    ParsedFields,
    Error,
> {
    match rest {
        Ok(fields) => Ok(ParsedFields { values: values + fields.values, rest: fields.rest }),
        Err(e) => Err(e),
    }
}

/// The value that may be absent that the segments start with; `inner` is
/// the shape of the value when it is present. Without a segment the value is
/// missing; an empty segment stands for the absent value; anything else is
/// the start of the present value.
pub open spec fn parse_maybe(inner: Layout, parts: Seq<Seq<char>>, has_default: bool) -> Result<
    Parsed,
    Error,
>
    decreases inner, 1nat,
{
    if parts.len() == 0 {
        Err(Error::MissingValue)
    } else if parts[0].len() == 0 {
        Ok(Parsed { value: Datum::Absent, rest: parts.drop_first() })
    } else {
        match parse_value(inner, parts, has_default) {
            Ok(parsed) => Ok(
                Parsed { value: Datum::Present(Box::new(parsed.value)), rest: parsed.rest },
            ),
            Err(e) => Err(e),
        }
    }
}

/// The value of the given shape that the segments start with.
///
/// Where the segments are exhausted and a default stands behind the value,
/// the value is the default of its shape. Else a scalar is read from the
/// first segment; a value that may be absent is absent if the first segment
/// is empty, and else the value that the segments start with; a map takes
/// all the segments; a struct reads its fields in order; a text that takes
/// the rest of the frame is all the segments with their colons back between
/// them.
pub open spec fn parse_value(layout: Layout, parts: Seq<Seq<char>>, has_default: bool) -> Result<
    Parsed,
    Error,
>
    decreases layout, 0nat,
{
    if parts.len() == 0 && has_default {
        match default_datum(layout) {
            Some(value) => Ok(Parsed { value, rest: parts }),
            None => Err(Error::Reflect),
        }
    } else {
        match layout {
            Layout::Scalar(kind) => parse_scalar(kind, parts),
            Layout::Maybe(inner) => parse_maybe(*inner, parts, has_default),
            Layout::Pairs => match parse_pairs(parts) {
                Ok(entries) => Ok(Parsed { value: Datum::Pairs(entries), rest: Seq::empty() }),
                Err(e) => Err(e),
            },
            Layout::Struct(slots) => match parse_fields(slots, 0, parts, has_default) {
                Ok(fields) => Ok(Parsed { value: Datum::Struct(fields.values), rest: fields.rest }),
                Err(e) => Err(e),
            },
            Layout::Rest => if parts.len() == 0 {
                Err(Error::MissingValue)
            } else {
                Ok(
                    Parsed {
                        value: Datum::Scalar(Atom::Text(joined(parts, ':'))),
                        rest: Seq::empty(),
                    },
                )
            },
        }
    }
}

/// The value of a record that the segments of a frame stand for: the first
/// segment is the tag of the record, the value starts after it. Segments
/// that are left after the value are ignored.
pub open spec fn parse_record(tag: Seq<char>, layout: Layout, parts: Seq<Seq<char>>) -> Result<
    Datum,
    Error,
> {
    if parts.len() == 0 {
        Err(Error::MissingTag)
    } else if parts[0] != tag {
        Err(Error::MismatchedTag)
    } else {
        match parse_value(layout, parts.drop_first(), false) {
            Ok(parsed) => Ok(parsed.value),
            Err(e) => Err(e),
        }
    }
}

/// Whether a deserializing step gave what was expected of it: on success the
/// expected value, with the expected segments left; on failure the expected
/// error.
pub open spec fn read_as(got: Result<Value, Error>, left: Seq<Seq<char>>, expected: Result<Parsed, Error>) -> bool {
    match expected {
        Ok(parsed) => got matches Ok(value) && value@ == parsed.value && left == parsed.rest,
        Err(e) => got matches Err(error) && error == e,
    }
}

/// Takes the segments of a frame one after the other.
pub struct Deserializer {
    parts: VecDeque<String>,
}

impl View for Deserializer {
    type V = Seq<Seq<char>>;

    closed spec fn view(&self) -> Seq<Seq<char>> {
        texts(self.parts@)
    }
}

/// The text, as a string of its own.
fn owned(text: Cow<'_, str>) -> (r: String)
    ensures
        r@ == text@,
{
    match text {
        Cow::Borrowed(plain) => plain.to_owned(),
        Cow::Owned(made) => made,
    }
}

/// The first occurrence of a character is where it occurs after it did not.
pub proof fn lemma_find_is(s: Seq<char>, c: char, at: int)
    requires
        0 <= at <= s.len(),
        forall|j: int| 0 <= j < at ==> s[j] != c,
        at < s.len() ==> s[at] == c,
    ensures
        find(s, c) == at,
    decreases at,
{
    if at > 0 {
        let rest = s.drop_first();
        assert forall|j: int| 0 <= j < at - 1 implies rest[j] != c by {
            assert(rest[j] == s[j + 1]);
        }
        lemma_find_is(rest, c, at - 1);
    }
}

/// Split a segment at its first `=`.
fn split_entry(segment: &str) -> (r: (String, String, bool))
    ensures
        r.2 == segment@.contains('='),
        r.0@ == segment@.take(find(segment@, '=')),
        r.2 ==> r.1@ == segment@.skip(find(segment@, '=') + 1),
{
    let mut key = String::new();
    let mut value = String::new();
    let mut found = false;
    let ghost mut at: int = 0;
    let chars = segment.chars();
    for ch in it: chars
        invariant
            it.seq() == segment@,
            !found ==> at == it.index() && key@ == segment@.take(at) && value@.len() == 0,
            found ==> 0 <= at < it.index() && segment@[at] == '=' && key@ == segment@.take(at)
                && value@ == segment@.subrange(at + 1, it.index()),
            forall|j: int| 0 <= j < at ==> segment@[j] != '=',
    {
        if found {
            value.push(ch);
            assert(value@ =~= segment@.subrange(at + 1, it.index() + 1));
        } else if ch == '=' {
            found = true;
            assert(value@ =~= segment@.subrange(at + 1, it.index() + 1));
        } else {
            key.push(ch);
            proof {
                at = at + 1;
                assert(key@ =~= segment@.take(at));
            }
        }
    }
    proof {
        lemma_find_is(segment@, '=', at);
        if found {
            assert(value@ =~= segment@.skip(at + 1));
        }
    }
    (key, value, found)
}

/// A value that was read may be counted with the values before it or with
/// those after it.
proof fn lemma_fields_after_push(values: Seq<Datum>, value: Datum, rest: Result<ParsedFields, Error>)
    ensures
        fields_after(values, fields_after(seq![value], rest)) == fields_after(values.push(value), rest),
{
    if let Ok(fields) = rest {
        assert(values + (seq![value] + fields.values) =~= values.push(value) + fields.values);
    }
}

impl Deserializer {
    /// A deserializer of the given segments.
    pub fn new(parts: VecDeque<String>) -> (de: Deserializer)
        ensures
            de@ == texts(parts@),
    {
        Deserializer { parts }
    }

    /// Take the next segment, if there is one.
    fn pop(&mut self) -> (r: Option<String>)
        ensures
            match r {
                Some(part) => old(self)@.len() > 0 && part@ == old(self)@[0] && final(self)@ == old(
                    self,
                )@.drop_first(),
                None => old(self)@.len() == 0 && final(self)@ == old(self)@,
            },
    {
        let r = self.parts.pop_front();
        proof {
            if r is Some {
                assert(texts(self.parts@) =~= texts(old(self).parts@).drop_first());
            }
        }
        r
    }

    /// Take the tag of the frame: its first segment.
    pub fn deserialize_tag(&mut self) -> (r: Result<String, Error>)
        ensures
            match r {
                Ok(tag) => old(self)@.len() > 0 && tag@ == old(self)@[0] && final(self)@ == old(
                    self,
                )@.drop_first(),
                Err(e) => e == Error::MissingTag && old(self)@.len() == 0 && final(self)@ == old(self)@,
            },
    {
        match self.pop() {
            Some(tag) => Ok(tag),
            None => Err(Error::MissingTag),
        }
    }

    /// Read a scalar of the given kind from the next segment.
    pub fn deserialize_scalar(&mut self, kind: Kind) -> (r: Result<Value, Error>)
        ensures
            read_as(r, final(self)@, parse_scalar(kind, old(self)@)),
    {
        match self.pop() {
            Some(part) => match decode(part.as_str()) {
                Ok(text) => match Scalar::from_text(kind, owned(text).as_str()) {
                    Some(scalar) => Ok(Value::Scalar(scalar)),
                    None => Err(Error::Reflect),
                },
                Err(e) => Err(Error::InvalidUpcode(e)),
            },
            None => Err(Error::MissingValue),
        }
    }

    /// Read a value that may be absent; `shape` is the shape of the value
    /// when it is present.
    pub fn deserialize_option(&mut self, shape: &Shape, has_default: bool) -> (r: Result<Value, Error>)
        ensures
            read_as(r, final(self)@, parse_maybe(shape@, old(self)@, has_default)),
        decreases shape, 2nat,
    {
        if self.parts.len() == 0 {
            return Err(Error::MissingValue);
        }
        assert(self@[0] == self.parts@[0]@);
        if same(self.parts[0].as_str(), "") {
            proof {
                reveal_strlit("");
            }
            let _ = self.pop();
            Ok(Value::Absent)
        } else {
            proof {
                reveal_strlit("");
                assert(self@[0].len() != 0) by {
                    if self@[0].len() == 0 {
                        assert(self@[0] =~= ""@);
                    }
                }
            }
            match self.deserialize_value(shape, has_default) {
                Ok(value) => Ok(Value::Present(Box::new(value))),
                Err(e) => Err(e),
            }
        }
    }

    /// Read a map from all the segments that are left.
    pub fn deserialize_map(&mut self) -> (r: Result<Value, Error>)
        ensures
            read_as(r, final(self)@, parse_value(Layout::Pairs, old(self)@, false)),
    {
        let mut i: usize = 0;
        while i < self.parts.len()
            invariant
                i <= self.parts.len(),
                self.parts == old(self).parts,
                forall|j: int| 0 <= j < i ==> (#[trigger] self@[j]).contains('='),
            decreases self.parts.len() - i,
        {
            assert(self@[i as int] == self.parts@[i as int]@);
            let (_, _, found) = split_entry(self.parts[i].as_str());
            if !found {
                return Err(Error::MisformedMap);
            }
            i += 1;
        }
        let ghost start = self@;
        let mut params = Params::new();
        loop
            invariant
                start == old(self)@,
                forall|j: int| 0 <= j < start.len() ==> (#[trigger] start[j]).contains('='),
                forall|j: int| 0 <= j < self@.len() ==> (#[trigger] self@[j]).contains('='),
                entries_of(start, Seq::empty()) == entries_of(self@, params@),
            ensures
                parse_pairs(old(self)@) == Ok::<Seq<(Seq<char>, Seq<char>)>, Error>(params@),
                self@.len() == 0,
            decreases self@.len(),
        {
            let ghost parts = self@;
            match self.pop() {
                None => {
                    break ;
                },
                Some(part) => {
                    assert(parts[0].contains('='));
                    assert forall|j: int| 0 <= j < self@.len() implies (#[trigger] self@[j]).contains(
                        '=',
                    ) by {
                        assert(self@[j] == parts[j + 1]);
                    }
                    let (raw_key, raw_value, _) = split_entry(part.as_str());
                    let key = match decode(raw_key.as_str()) {
                        Ok(text) => owned(text),
                        Err(e) => {
                            return Err(Error::InvalidUpcode(e));
                        },
                    };
                    let value = match decode(raw_value.as_str()) {
                        Ok(text) => owned(text),
                        Err(e) => {
                            return Err(Error::InvalidUpcode(e));
                        },
                    };
                    params.insert(key, value);
                },
            }
        }
        assert(self@ =~= Seq::empty());
        Ok(Value::Pairs(params))
    }

    /// Read the rest of the frame as one text.
    pub fn deserialize_rest(&mut self) -> (r: Result<Value, Error>)
        ensures
            read_as(r, final(self)@, parse_value(Layout::Rest, old(self)@, false)),
    {
        if self.parts.len() == 0 {
            return Err(Error::MissingValue);
        }
        let ghost all = self@;
        let mut taken: Vec<String> = Vec::new();
        loop
            invariant
                texts(taken@) + self@ == all,
            ensures
                texts(taken@) == all,
                self@.len() == 0,
            decreases self@.len(),
        {
            let ghost before = texts(taken@);
            let ghost left = self@;
            match self.pop() {
                Some(part) => {
                    taken.push(part);
                    assert(texts(taken@) =~= before.push(left[0]));
                    assert(texts(taken@) + self@ =~= before + left);
                },
                None => {
                    assert(before + left =~= before);
                    break ;
                },
            }
        }
        assert(self@ =~= Seq::empty());
        Ok(Value::Scalar(Scalar::Text(join(&taken))))
    }

    /// Read a value of the given shape.
    pub fn deserialize_value(&mut self, shape: &Shape, has_default: bool) -> (r: Result<Value, Error>)
        ensures
            read_as(r, final(self)@, parse_value(shape@, old(self)@, has_default)),
        decreases shape, 1nat,
    {
        if self.parts.len() == 0 && has_default {
            return match shape.default_value() {
                Some(value) => Ok(value),
                None => Err(Error::Reflect),
            };
        }
        match shape {
            Shape::Scalar(kind) => self.deserialize_scalar(*kind),
            Shape::Maybe(inner) => self.deserialize_option(&**inner, has_default),
            Shape::Pairs => self.deserialize_map(),
            Shape::Rest => self.deserialize_rest(),
            Shape::Struct(fields) => {
                let ghost slots = shape@->Struct_0;
                let ghost start = self@;
                let mut values: Vec<Value> = Vec::new();
                let mut i: usize = 0;
                while i < fields.len()
                    invariant
                        i <= fields.len(),
                        shape == Shape::Struct(*fields),
                        slots == shape@->Struct_0,
                        start == old(self)@,
                        !(start.len() == 0 && has_default),
                        parse_fields(slots, 0, start, has_default) == fields_after(
                            Value::Struct(values)@->Struct_0,
                            parse_fields(slots, i as int, self@, has_default),
                        ),
                    decreases fields.len() - i,
                {
                    let ghost before = Value::Struct(values)@->Struct_0;
                    assert(slots[i as int].layout == fields[i as int].shape@);
                    assert(slots[i as int].has_default == fields[i as int].has_default);
                    match self.deserialize_value(&fields[i].shape, has_default || fields[i].has_default) {
                        Ok(value) => {
                            values.push(value);
                            proof {
                                assert(Value::Struct(values)@->Struct_0 =~= before.push(value@));
                                lemma_fields_after_push(
                                    before,
                                    value@,
                                    parse_fields(slots, i + 1, self@, has_default),
                                );
                            }
                        },
                        Err(e) => {
                            return Err(e);
                        },
                    }
                    i += 1;
                }
                proof {
                    let got = Value::Struct(values)@->Struct_0;
                    assert(got + Seq::<Datum>::empty() =~= got);
                }
                Ok(Value::Struct(values))
            },
        }
    }

    /// Read a record of the given tag and shape.
    pub fn deserialize(self, tag: &str, shape: &Shape) -> (r: Result<Value, Error>)
        ensures
            match parse_record(tag@, shape@, self@) {
                Ok(value) => r matches Ok(got) && got@ == value,
                Err(e) => r matches Err(error) && error == e,
            },
    {
        let mut de = self;
        let found = de.deserialize_tag()?;
        if !same(found.as_str(), tag) {
            return Err(Error::MismatchedTag);
        }
        de.deserialize_value(shape, false)
    }
}

} // verus!
