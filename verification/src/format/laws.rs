//! What holds of the wire format: reading what was written gives it back,
//! and a frame may end at a field that has a default.

use super::control::Connect;
use super::de::{
    fields_after, parse_fields, parse_maybe, parse_record, parse_value, Parsed, ParsedFields,
};
use super::error::Error;
use super::field::{maybe_pair, maybe_pair_layout, pair, pair_layout};
use super::handler::InstallReq;
use super::record::{frame, read, Record};
use super::scalar::{atom_of, lemma_atom_of_text, Atom, Kind};
use super::ser::{wire, wire_fields, wire_record};
use super::shape::{Datum, Layout, Slot};
use super::text::{joined, lemma_joined_prefix, lemma_pieces_joined, segments};
use super::upcode::{encode_char, encode_spec, is_special, lemma_decode_encode, lemma_encode_front};
use vstd::prelude::*;

verus! {

/// Only the empty text has an empty encoding.
pub proof fn lemma_encode_nonempty(s: Seq<char>)
    ensures
        encode_spec(s).len() == 0 <==> s.len() == 0,
{
    if s.len() > 0 {
        lemma_encode_front(s);
        assert(encode_char(s[0]).len() > 0);
    }
}

/// A scalar is read from its encoded text, whatever follows it.
pub proof fn lemma_read_scalar(atom: Atom, rest: Seq<Seq<char>>, has_default: bool)
    ensures
        parse_value(Layout::Scalar(atom.kind()), seq![encode_spec(atom.text())] + rest, has_default)
            == Ok::<Parsed, Error>(Parsed { value: Datum::Scalar(atom), rest }),
{
    let parts = seq![encode_spec(atom.text())] + rest;
    lemma_decode_encode(atom.text());
    lemma_atom_of_text(atom);
    assert(parts[0] == encode_spec(atom.text()));
    assert(parts.drop_first() =~= rest);
}

/// A present value is read as what the segments start with, where the first
/// segment is not empty.
pub proof fn lemma_read_present(inner: Layout, parts: Seq<Seq<char>>, has_default: bool)
    requires
        parts.len() > 0,
        parts[0].len() > 0,
    ensures
        parse_value(Layout::Maybe(Box::new(inner)), parts, has_default) == match parse_value(
            inner,
            parts,
            has_default,
        ) {
            Ok(parsed) => Ok::<Parsed, Error>(
                Parsed { value: Datum::Present(Box::new(parsed.value)), rest: parsed.rest },
            ),
            Err(e) => Err::<Parsed, Error>(e),
        },
{
}

/// An empty segment is read as the absent value.
pub proof fn lemma_read_absent(inner: Layout, rest: Seq<Seq<char>>, has_default: bool)
    ensures
        parse_value(Layout::Maybe(Box::new(inner)), seq![Seq::<char>::empty()] + rest, has_default)
            == Ok::<Parsed, Error>(Parsed { value: Datum::Absent, rest }),
{
    let parts = seq![Seq::<char>::empty()] + rest;
    assert(parts[0].len() == 0);
    assert(parts.drop_first() =~= rest);
}

/// Where the frame has ended and a default stands behind it, a value that
/// may be absent is absent.
pub proof fn lemma_read_default(inner: Layout)
    ensures
        parse_value(Layout::Maybe(Box::new(inner)), Seq::empty(), true) == Ok::<Parsed, Error>(
            Parsed { value: Datum::Absent, rest: Seq::empty() },
        ),
{
}

/// Whether a pair that may be absent is written so that it is read back: a
/// present text is not empty, since an empty segment stands for the absent
/// value.
pub open spec fn stable_pair(p: Option<(String, Option<String>)>) -> bool {
    match p {
        Some(p) => p.0@.len() > 0 && match p.1 {
            Some(second) => second@.len() > 0,
            None => true,
        },
        None => true,
    }
}

/// The segments of a pair that may be absent, at the end of a record.
pub open spec fn pair_wire(p: Option<(String, Option<String>)>) -> Seq<Seq<char>> {
    match p {
        Some(p) => match p.1 {
            Some(second) => seq![encode_spec(p.0@), encode_spec(second@)],
            None => seq![encode_spec(p.0@)],
        },
        None => Seq::empty(),
    }
}

/// A pair that may be absent, with a default behind it, is written as the
/// texts that it holds.
pub proof fn lemma_pair_wire(p: Option<(String, Option<String>)>)
    ensures
        wire(maybe_pair(p), maybe_pair_layout(), true) == pair_wire(p),
{
    reveal_with_fuel(wire, 5);
    reveal_with_fuel(wire_fields, 5);
    assert(wire(maybe_pair(p), maybe_pair_layout(), true) =~= pair_wire(p));
}

/// A pair that may be absent, with a default behind it, is read back from
/// what it was written as, at the end of a frame.
pub proof fn lemma_read_pair(p: Option<(String, Option<String>)>)
    requires
        stable_pair(p),
    ensures
        parse_value(maybe_pair_layout(), pair_wire(p), true) == Ok::<Parsed, Error>(
            Parsed { value: maybe_pair(p), rest: Seq::empty() },
        ),
{
    match p {
        None => {
            lemma_read_default(pair_layout());
        },
        Some(p) => {
            let parts = pair_wire(Some(p));
            let slots = pair_layout()->Struct_0;
            let first = Atom::Text(p.0@);
            lemma_encode_nonempty(p.0@);
            lemma_read_present(pair_layout(), parts, true);
            let after = parts.drop_first();
            assert(parts =~= seq![encode_spec(first.text())] + after);
            lemma_read_scalar(first, after, true);
            assert(parse_value(slots[0].layout, parts, true) == Ok::<Parsed, Error>(
                Parsed { value: Datum::Scalar(first), rest: after },
            ));
            match p.1 {
                None => {
                    assert(after =~= Seq::empty());
                    lemma_read_default(Layout::Scalar(Kind::Text));
                    assert(parse_value(slots[1].layout, after, true) == Ok::<Parsed, Error>(
                        Parsed { value: Datum::Absent, rest: Seq::empty() },
                    ));
                },
                Some(second) => {
                    let text = Atom::Text(second@);
                    lemma_encode_nonempty(second@);
                    assert(after =~= seq![encode_spec(text.text())] + Seq::<Seq<char>>::empty());
                    lemma_read_present(Layout::Scalar(Kind::Text), after, true);
                    lemma_read_scalar(text, Seq::empty(), true);
                },
            }
            let second = parse_value(slots[1].layout, after, true)->Ok_0;
            assert(second.rest =~= Seq::empty());
            assert(parse_fields(slots, 2, second.rest, true) == Ok::<ParsedFields, Error>(
                ParsedFields { values: Seq::empty(), rest: second.rest },
            ));
            assert(parse_fields(slots, 1, after, true) == Ok::<ParsedFields, Error>(
                ParsedFields { values: seq![second.value] + Seq::empty(), rest: second.rest },
            ));
            let got = parse_fields(slots, 0, parts, true)->Ok_0;
            assert(got.values =~= pair(p)->Struct_0);
        },
    }
}

/// A pair that may be absent, cut down to the first `keep` of the segments
/// that it is written as.
pub open spec fn cut_pair(p: Option<(String, Option<String>)>, keep: int) -> Option<
    (String, Option<String>),
> {
    match p {
        Some(p) => if keep <= 0 {
            None
        } else if keep == 1 {
            Some((p.0, None))
        } else {
            Some(p)
        },
        None => None,
    }
}

/// A pair that was cut down is written as the segments that were kept.
pub proof fn lemma_cut_pair(p: Option<(String, Option<String>)>, keep: int)
    requires
        stable_pair(p),
        0 <= keep <= pair_wire(p).len(),
    ensures
        stable_pair(cut_pair(p, keep)),
        pair_wire(cut_pair(p, keep)) == pair_wire(p).take(keep),
{
    assert(pair_wire(cut_pair(p, keep)) =~= pair_wire(p).take(keep));
}

/// The segment of a number that may be absent, where no default stands
/// behind it.
pub open spec fn number_wire(n: Option<u64>) -> Seq<char> {
    match n {
        Some(n) => encode_spec(Atom::Number(n).text()),
        None => Seq::empty(),
    }
}

/// The segments of a request to install a handler.
pub open spec fn install_wire(r: InstallReq) -> Seq<Seq<char>> {
    seq![InstallReq::tag(), number_wire(r.priority), encode_spec(r.name@)] + pair_wire(r.filter)
}

/// A request to install a handler is written as its tag, its priority, its
/// name and its filter.
pub proof fn lemma_install_wire(r: InstallReq)
    ensures
        wire_record(InstallReq::tag(), r.datum(), InstallReq::layout()) == install_wire(r),
{
    reveal_with_fuel(wire, 3);
    lemma_pair_wire(r.filter);
    let values = r.datum()->Struct_0;
    let slots = InstallReq::layout()->Struct_0;
    assert(wire_fields(values, slots, false, 0) =~= Seq::empty());
    assert(wire(values[0], slots[0].layout, false) =~= seq![number_wire(r.priority)]);
    assert(wire_fields(values, slots, false, 1) =~= seq![number_wire(r.priority)]);
    assert(wire(values[1], slots[1].layout, false) =~= seq![encode_spec(r.name@)]);
    assert(wire_fields(values, slots, false, 2) =~= seq![
        number_wire(r.priority),
        encode_spec(r.name@),
    ]);
    assert(wire(values[2], slots[2].layout, true) == pair_wire(r.filter));
    assert(wire_fields(values, slots, false, 3) =~= seq![
        number_wire(r.priority),
        encode_spec(r.name@),
    ] + pair_wire(r.filter));
    assert(wire_record(InstallReq::tag(), r.datum(), InstallReq::layout()) =~= install_wire(r));
}

/// A request to install a handler is read back from what it was written as.
pub proof fn lemma_install_read(r: InstallReq)
    requires
        stable_pair(r.filter),
    ensures
        parse_record(InstallReq::tag(), InstallReq::layout(), install_wire(r)) == Ok::<Datum, Error>(
            r.datum(),
        ),
{
    let slots = InstallReq::layout()->Struct_0;
    let parts = install_wire(r).drop_first();
    let after_priority = seq![encode_spec(r.name@)] + pair_wire(r.filter);
    let after_name = pair_wire(r.filter);
    assert(install_wire(r)[0] == InstallReq::tag());
    assert(parts =~= seq![number_wire(r.priority)] + after_priority);
    match r.priority {
        Some(n) => {
            let atom = Atom::Number(n);
            lemma_atom_of_text(atom);
            lemma_encode_nonempty(atom.text());
            crate::format::number::lemma_decimal_digits(n as nat);
            lemma_read_present(Layout::Scalar(Kind::Number), parts, false);
            lemma_read_scalar(atom, after_priority, false);
        },
        None => {
            lemma_read_absent(Layout::Scalar(Kind::Number), after_priority, false);
        },
    }
    let first = parse_value(slots[0].layout, parts, false)->Ok_0;
    assert(first.rest == after_priority);
    lemma_read_scalar(Atom::Text(r.name@), after_name, false);
    let second = parse_value(slots[1].layout, after_priority, false)->Ok_0;
    assert(second.rest == after_name);
    lemma_read_pair(r.filter);
    let third = parse_value(slots[2].layout, after_name, true)->Ok_0;
    assert(parse_fields(slots, 3, third.rest, false) == Ok::<ParsedFields, Error>(
        ParsedFields { values: Seq::empty(), rest: third.rest },
    ));
    assert(parse_fields(slots, 2, after_name, false) == Ok::<ParsedFields, Error>(
        ParsedFields { values: seq![third.value] + Seq::empty(), rest: third.rest },
    ));
    let tail = parse_fields(slots, 2, after_name, false)->Ok_0;
    assert(parse_fields(slots, 1, after_priority, false) == Ok::<ParsedFields, Error>(
        ParsedFields { values: seq![second.value] + tail.values, rest: tail.rest },
    ));
    let got = parse_fields(slots, 0, parts, false)->Ok_0;
    assert(got.values =~= r.datum()->Struct_0);
}

/// Default truncation, for the request to install a handler: its frame may
/// end at the filter, or within it. The segments up to there are read as the
/// request with its filter cut down to what was kept, and that request is
/// written as just these segments.
pub proof fn lemma_install_truncation(r: InstallReq, keep: int)
    requires
        stable_pair(r.filter),
        0 <= keep <= pair_wire(r.filter).len(),
    ensures
        ({
            let whole = wire_record(InstallReq::tag(), r.datum(), InstallReq::layout());
            let cut = InstallReq {
                priority: r.priority,
                name: r.name,
                filter: cut_pair(r.filter, keep),
            };
            &&& whole.len() == 3 + pair_wire(r.filter).len()
            &&& parse_record(InstallReq::tag(), InstallReq::layout(), whole.take(3 + keep)) == Ok::<
                Datum,
                Error,
            >(cut.datum())
            &&& wire_record(InstallReq::tag(), cut.datum(), InstallReq::layout()) == whole.take(
                3 + keep,
            )
        }),
{
    let cut = InstallReq { priority: r.priority, name: r.name, filter: cut_pair(r.filter, keep) };
    lemma_install_wire(r);
    lemma_install_wire(cut);
    lemma_cut_pair(r.filter, keep);
    lemma_install_read(cut);
    assert(install_wire(cut) =~= install_wire(r).take(3 + keep));
}

/// The segments of a request to connect.
pub open spec fn connect_wire(r: Connect) -> Seq<Seq<char>> {
    seq![Connect::tag(), encode_spec(Atom::Role(r.role).text())] + pair_wire(r.channel)
}

/// A request to connect is written as its tag, its role and its channel.
pub proof fn lemma_connect_wire(r: Connect)
    ensures
        wire_record(Connect::tag(), r.datum(), Connect::layout()) == connect_wire(r),
{
    lemma_pair_wire(r.channel);
    let values = r.datum()->Struct_0;
    let slots = Connect::layout()->Struct_0;
    let role = encode_spec(Atom::Role(r.role).text());
    assert(wire_fields(values, slots, false, 0) =~= Seq::empty());
    assert(wire(values[0], slots[0].layout, false) =~= seq![role]);
    assert(wire_fields(values, slots, false, 1) =~= seq![role]);
    assert(wire(values[1], slots[1].layout, true) == pair_wire(r.channel));
    assert(wire_fields(values, slots, false, 2) =~= seq![role] + pair_wire(r.channel));
    assert(wire_record(Connect::tag(), r.datum(), Connect::layout()) =~= connect_wire(r));
}

/// A request to connect is read back from what it was written as.
pub proof fn lemma_connect_read(r: Connect)
    requires
        stable_pair(r.channel),
    ensures
        parse_record(Connect::tag(), Connect::layout(), connect_wire(r)) == Ok::<Datum, Error>(
            r.datum(),
        ),
{
    let slots = Connect::layout()->Struct_0;
    let parts = connect_wire(r).drop_first();
    let after_role = pair_wire(r.channel);
    assert(connect_wire(r)[0] == Connect::tag());
    assert(parts =~= seq![encode_spec(Atom::Role(r.role).text())] + after_role);
    lemma_read_scalar(Atom::Role(r.role), after_role, false);
    let first = parse_value(slots[0].layout, parts, false)->Ok_0;
    assert(first.rest == after_role);
    lemma_read_pair(r.channel);
    let second = parse_value(slots[1].layout, after_role, true)->Ok_0;
    assert(parse_fields(slots, 2, second.rest, false) == Ok::<ParsedFields, Error>(
        ParsedFields { values: Seq::empty(), rest: second.rest },
    ));
    assert(parse_fields(slots, 1, after_role, false) == Ok::<ParsedFields, Error>(
        ParsedFields { values: seq![second.value] + Seq::empty(), rest: second.rest },
    ));
    let got = parse_fields(slots, 0, parts, false)->Ok_0;
    assert(got.values =~= r.datum()->Struct_0);
}

/// Default truncation, for the request to connect: its frame may end at the
/// channel, or within it. The segments up to there are read as the request
/// with its channel cut down to what was kept, and that request is written
/// as just these segments.
pub proof fn lemma_connect_truncation(r: Connect, keep: int)
    requires
        stable_pair(r.channel),
        0 <= keep <= pair_wire(r.channel).len(),
    ensures
        ({
            let whole = wire_record(Connect::tag(), r.datum(), Connect::layout());
            let cut = Connect { role: r.role, channel: cut_pair(r.channel, keep) };
            &&& whole.len() == 2 + pair_wire(r.channel).len()
            &&& parse_record(Connect::tag(), Connect::layout(), whole.take(2 + keep)) == Ok::<
                Datum,
                Error,
            >(cut.datum())
            &&& wire_record(Connect::tag(), cut.datum(), Connect::layout()) == whole.take(2 + keep)
        }),
{
    let cut = Connect { role: r.role, channel: cut_pair(r.channel, keep) };
    lemma_connect_wire(r);
    lemma_connect_wire(cut);
    lemma_cut_pair(r.channel, keep);
    lemma_connect_read(cut);
    assert(connect_wire(cut) =~= connect_wire(r).take(2 + keep));
}

/// No encoding holds a colon.
pub proof fn lemma_encode_no_colon(s: Seq<char>)
    ensures
        !encode_spec(s).contains(':'),
    decreases s.len(),
{
    if s.len() > 0 {
        lemma_encode_no_colon(s.drop_last());
        let before = encode_spec(s.drop_last());
        let last = encode_char(s.last());
        let all = encode_spec(s);
        if all.contains(':') {
            let k = choose|k: int| 0 <= k < all.len() && all[k] == ':';
            if k < before.len() {
                assert(before[k] == ':');
            } else {
                assert(last[k - before.len()] == ':');
                lemma_upcode_is_no_colon(s.last());
            }
        }
    }
}

/// The encoding of a character holds no colon.
proof fn lemma_upcode_is_no_colon(c: char)
    ensures
        !encode_char(c).contains(':'),
{
    let code = c as u32;
    if is_special(c) && c != '%' {
        assert(((code + 64) as char) as u32 == code + 64);
    }
    let e = encode_char(c);
    if e.contains(':') {
        let k = choose|k: int| 0 <= k < e.len() && e[k] == ':';
        assert(k == 0 || k == 1);
    }
}

/// The segments of a frame that was joined from parts without colons, the
/// first of which is not empty, are those parts.
pub proof fn lemma_segments_joined(parts: Seq<Seq<char>>)
    requires
        parts.len() > 0,
        parts[0].len() > 0,
        forall|i: int| 0 <= i < parts.len() ==> !(#[trigger] parts[i]).contains(':'),
    ensures
        segments(joined(parts, ':')) == parts,
{
    lemma_pieces_joined(parts, ':');
    lemma_joined_prefix(parts, 1, ':');
    assert(joined(parts.take(1), ':') == parts[0]);
}

/// No segment of a request to install a handler holds a colon, and the
/// first, the tag, is not empty.
pub proof fn lemma_install_segments(r: InstallReq)
    ensures
        install_wire(r).len() > 0,
        install_wire(r)[0].len() > 0,
        forall|i: int| 0 <= i < install_wire(r).len() ==> !(#[trigger] install_wire(r)[i]).contains(':'),
{
    let parts = install_wire(r);
    reveal_strlit("%%>install");
    lemma_encode_no_colon(r.name@);
    match r.priority {
        Some(n) => lemma_encode_no_colon(Atom::Number(n).text()),
        None => {},
    }
    match r.filter {
        Some(p) => {
            lemma_encode_no_colon(p.0@);
            match p.1 {
                Some(second) => lemma_encode_no_colon(second@),
                None => {},
            }
        },
        None => {},
    }
    assert(!parts[0].contains(':')) by {
        if parts[0].contains(':') {
            let k = choose|k: int| 0 <= k < parts[0].len() && parts[0][k] == ':';
            assert(0 <= k < 10);
        }
    }
    assert forall|i: int| 0 <= i < parts.len() implies !(#[trigger] parts[i]).contains(':') by {
        if i >= 3 {
            assert(parts[i] == pair_wire(r.filter)[i - 3]);
        }
    }
}

/// Round trip, for the request to install a handler: its frame is read back
/// as the request.
pub proof fn lemma_install_round_trip(r: InstallReq)
    requires
        stable_pair(r.filter),
    ensures
        read::<InstallReq>(frame(r)) == Ok::<Datum, Error>(r.datum()),
{
    lemma_install_wire(r);
    lemma_install_segments(r);
    lemma_segments_joined(install_wire(r));
    lemma_install_read(r);
}

/// Default truncation, for the frame of the request to install a handler:
/// the frame may end before the filter, or within it. What is left is where
/// the whole frame starts; it is read as the request with its filter cut
/// down to what was kept, and it is the frame of that request.
pub proof fn lemma_install_frame_truncation(r: InstallReq, keep: int)
    requires
        stable_pair(r.filter),
        0 <= keep <= pair_wire(r.filter).len(),
    ensures
        ({
            let whole = wire_record(InstallReq::tag(), r.datum(), InstallReq::layout());
            let short = joined(whole.take(3 + keep), ':');
            let cut = InstallReq {
                priority: r.priority,
                name: r.name,
                filter: cut_pair(r.filter, keep),
            };
            &&& short.is_prefix_of(frame(r))
            &&& read::<InstallReq>(short) == Ok::<Datum, Error>(cut.datum())
            &&& frame(cut) == short
        }),
{
    let whole = wire_record(InstallReq::tag(), r.datum(), InstallReq::layout());
    let cut = InstallReq { priority: r.priority, name: r.name, filter: cut_pair(r.filter, keep) };
    lemma_install_truncation(r, keep);
    lemma_cut_pair(r.filter, keep);
    lemma_install_round_trip(cut);
    lemma_joined_prefix(whole, 3 + keep, ':');
}

/// No segment of a request to connect holds a colon, and the first, the tag,
/// is not empty.
pub proof fn lemma_connect_segments(r: Connect)
    ensures
        connect_wire(r).len() > 0,
        connect_wire(r)[0].len() > 0,
        forall|i: int| 0 <= i < connect_wire(r).len() ==> !(#[trigger] connect_wire(r)[i]).contains(':'),
{
    let parts = connect_wire(r);
    reveal_strlit("%%>connect");
    lemma_encode_no_colon(Atom::Role(r.role).text());
    match r.channel {
        Some(p) => {
            lemma_encode_no_colon(p.0@);
            match p.1 {
                Some(second) => lemma_encode_no_colon(second@),
                None => {},
            }
        },
        None => {},
    }
    assert(!parts[0].contains(':')) by {
        if parts[0].contains(':') {
            let k = choose|k: int| 0 <= k < parts[0].len() && parts[0][k] == ':';
            assert(0 <= k < 10);
        }
    }
    assert forall|i: int| 0 <= i < parts.len() implies !(#[trigger] parts[i]).contains(':') by {
        if i >= 2 {
            assert(parts[i] == pair_wire(r.channel)[i - 2]);
        }
    }
}

/// Round trip, for the request to connect: its frame is read back as the
/// request.
pub proof fn lemma_connect_round_trip(r: Connect)
    requires
        stable_pair(r.channel),
    ensures
        read::<Connect>(frame(r)) == Ok::<Datum, Error>(r.datum()),
{
    lemma_connect_wire(r);
    lemma_connect_segments(r);
    lemma_segments_joined(connect_wire(r));
    lemma_connect_read(r);
}

/// Default truncation, for the frame of the request to connect: the frame
/// may end before the channel, or within it. What is left is where the whole
/// frame starts; it is read as the request with its channel cut down to what
/// was kept, and it is the frame of that request.
pub proof fn lemma_connect_frame_truncation(r: Connect, keep: int)
    requires
        stable_pair(r.channel),
        0 <= keep <= pair_wire(r.channel).len(),
    ensures
        ({
            let whole = wire_record(Connect::tag(), r.datum(), Connect::layout());
            let short = joined(whole.take(2 + keep), ':');
            let cut = Connect { role: r.role, channel: cut_pair(r.channel, keep) };
            &&& short.is_prefix_of(frame(r))
            &&& read::<Connect>(short) == Ok::<Datum, Error>(cut.datum())
            &&& frame(cut) == short
        }),
{
    let whole = wire_record(Connect::tag(), r.datum(), Connect::layout());
    let cut = Connect { role: r.role, channel: cut_pair(r.channel, keep) };
    lemma_connect_truncation(r, keep);
    lemma_cut_pair(r.channel, keep);
    lemma_connect_round_trip(cut);
    lemma_joined_prefix(whole, 2 + keep, ':');
}

/// Whether a field is a scalar, or a scalar that may be absent, without a
/// default, that is written so that it is read back: a present scalar has a
/// text that is not empty, since an empty segment stands for the absent
/// value.
pub open spec fn is_simple(value: Datum, slot: Slot) -> bool {
    !slot.has_default && match slot.layout {
        Layout::Scalar(kind) => value matches Datum::Scalar(atom) && atom.kind() == kind,
        Layout::Maybe(inner) => *inner matches Layout::Scalar(kind) && match value {
            Datum::Absent => true,
            Datum::Present(present) => *present matches Datum::Scalar(atom) && atom.kind() == kind
                && atom.text().len() > 0,
            _ => false,
        },
        _ => false,
    }
}

/// The segment of a scalar, or of a scalar that may be absent, without a
/// default.
pub open spec fn simple_wire(value: Datum) -> Seq<char> {
    match value {
        Datum::Scalar(atom) => encode_spec(atom.text()),
        Datum::Present(present) => match *present {
            Datum::Scalar(atom) => encode_spec(atom.text()),
            _ => Seq::empty(),
        },
        _ => Seq::empty(),
    }
}

/// The segments of the first `n` fields, each a scalar or a scalar that may
/// be absent.
pub open spec fn simple_wires(values: Seq<Datum>, n: int) -> Seq<Seq<char>> {
    Seq::new(n as nat, |i: int| simple_wire(values[i]))
}

/// Whether each of the first `n` fields is simple.
pub open spec fn all_simple(values: Seq<Datum>, slots: Seq<Slot>, n: int) -> bool {
    &&& 0 <= n <= values.len()
    &&& n <= slots.len()
    &&& forall|i: int| 0 <= i < n ==> is_simple(#[trigger] values[i], slots[i])
}

/// A simple field is written as its one segment, and read back from it,
/// whatever follows.
pub proof fn lemma_simple_field(value: Datum, slot: Slot, rest: Seq<Seq<char>>)
    requires
        is_simple(value, slot),
    ensures
        wire(value, slot.layout, false) == seq![simple_wire(value)],
        parse_value(slot.layout, seq![simple_wire(value)] + rest, false) == Ok::<Parsed, Error>(
            Parsed { value, rest },
        ),
{
    reveal_with_fuel(wire, 2);
    let parts = seq![simple_wire(value)] + rest;
    match value {
        Datum::Scalar(atom) => {
            lemma_read_scalar(atom, rest, false);
        },
        Datum::Absent => {
            assert(parts[0].len() == 0);
            assert(parts.drop_first() =~= rest);
        },
        Datum::Present(present) => {
            let atom = present->Scalar_0;
            lemma_encode_nonempty(atom.text());
            assert(parts[0] == encode_spec(atom.text()));
            lemma_read_scalar(atom, rest, false);
        },
        _ => {},
    }
}

/// Simple fields are written as one segment each.
pub proof fn lemma_simple_wires(values: Seq<Datum>, slots: Seq<Slot>, n: int)
    requires
        all_simple(values, slots, n),
    ensures
        wire_fields(values, slots, false, n as nat) == simple_wires(values, n),
    decreases n,
{
    if n > 0 {
        lemma_simple_wires(values, slots, n - 1);
        lemma_simple_field(values[n - 1], slots[n - 1], Seq::empty());
        assert(wire_fields(values, slots, false, n as nat) =~= simple_wires(values, n));
    } else {
        assert(wire_fields(values, slots, false, 0) =~= simple_wires(values, 0));
    }
}

/// Simple fields are read back from their segments: reading the fields from
/// `from` on gives the values of the simple ones, and then what the fields
/// after them give on the segments that follow.
pub proof fn lemma_read_simple(values: Seq<Datum>, slots: Seq<Slot>, from: int, n: int, rest: Seq<Seq<char>>)
    requires
        all_simple(values, slots, n),
        0 <= from <= n,
    ensures
        parse_fields(slots, from, simple_wires(values, n).skip(from) + rest, false) == fields_after(
            values.subrange(from, n),
            parse_fields(slots, n, rest, false),
        ),
    decreases n - from,
{
    let parts = simple_wires(values, n).skip(from) + rest;
    if from == n {
        assert(parts =~= rest);
        let after = parse_fields(slots, n, rest, false);
        assert(values.subrange(from, n) =~= Seq::empty());
        if let Ok(fields) = after {
            assert(Seq::<Datum>::empty() + fields.values =~= fields.values);
        }
    } else {
        let next = simple_wires(values, n).skip(from + 1) + rest;
        assert(parts =~= seq![simple_wire(values[from])] + next);
        lemma_simple_field(values[from], slots[from], next);
        lemma_read_simple(values, slots, from + 1, n, rest);
        let after = parse_fields(slots, n, rest, false);
        if let Ok(fields) = after {
            assert(seq![values[from]] + (values.subrange(from + 1, n) + fields.values)
                =~= values.subrange(from, n) + fields.values);
        }
    }
}

/// Whether a text can be the tag of a record: it is not empty and holds no
/// colon.
pub open spec fn is_tag(tag: Seq<char>) -> bool {
    tag.len() > 0 && !tag.contains(':')
}

/// Whether a record is made of simple fields only.
pub open spec fn is_plain(value: Datum, layout: Layout) -> bool {
    &&& value is Struct
    &&& layout is Struct
    &&& value->Struct_0.len() == layout->Struct_0.len()
    &&& all_simple(value->Struct_0, layout->Struct_0, value->Struct_0.len() as int)
}

/// Round trip, for a record of simple fields: it is read back from its
/// frame.
pub proof fn lemma_plain_round_trip<T: Record>(r: T)
    requires
        is_tag(T::tag()),
        is_plain(r.datum(), T::layout()),
    ensures
        read::<T>(frame(r)) == Ok::<Datum, Error>(r.datum()),
{
    let values = r.datum()->Struct_0;
    let slots = T::layout()->Struct_0;
    let n = values.len() as int;
    let body = simple_wires(values, n);
    let whole = wire_record(T::tag(), r.datum(), T::layout());
    lemma_simple_wires(values, slots, n);
    assert(whole =~= seq![T::tag()] + body);
    assert forall|i: int| 0 <= i < whole.len() implies !(#[trigger] whole[i]).contains(':') by {
        if i > 0 {
            lemma_simple_wire_no_colon(values[i - 1]);
        }
    }
    lemma_segments_joined(whole);
    lemma_read_simple(values, slots, 0, n, Seq::empty());
    assert(whole.drop_first() =~= body.skip(0) + Seq::<Seq<char>>::empty());
    assert(values.subrange(0, n) =~= values);
    assert(values + Seq::<Datum>::empty() =~= values);
}

/// The segment of a simple field holds no colon.
pub proof fn lemma_simple_wire_no_colon(value: Datum)
    ensures
        !simple_wire(value).contains(':'),
{
    match value {
        Datum::Scalar(atom) => lemma_encode_no_colon(atom.text()),
        Datum::Present(present) => match *present {
            Datum::Scalar(atom) => lemma_encode_no_colon(atom.text()),
            _ => {},
        },
        _ => {},
    }
}

} // verus!
