//! Round trips: every record is read back from the frame that it is written
//! as. The two records whose last field has a default have their round trips
//! beside the laws about where their frames may end.

use super::control::{ErrorIn, Output, Quit, QuitAck};
use super::de::{
    entries_of, entry_of, lemma_find_is, parse_fields, parse_pairs, parse_record, parse_value,
    Parsed, ParsedFields,
};
use super::error::Error;
use super::field::slot;
use super::handler::{InstallAck, UninstallAck, UninstallReq};
use super::laws::{
    all_simple, is_tag, lemma_encode_no_colon, lemma_plain_round_trip, lemma_read_simple,
    lemma_segments_joined, lemma_simple_wire_no_colon, lemma_simple_wires, simple_wires,
};
use super::local::{SetLocalAck, SetLocalReq};
use super::message::{MessageAck, MessageReq};
use super::params::{ascending, lemma_rank_is, put};
use super::record::{frame, read, Record};
use super::ser::{entry_wire, pairs_wire, wire, wire_fields, wire_record};
use super::shape::{Datum, Layout};
use super::text::{
    joined, lemma_joined_pieces, lemma_pieces_hold_no_separator, lemma_pieces_nonempty, pieces,
    segments,
};
use super::upcode::{encode_char, encode_spec, is_special, lemma_decode_encode};
use super::watcher::{UnwatchAck, UnwatchReq, WatchAck, WatchReq};
use vstd::prelude::*;

verus! {

/// Round trip, for the answer to the request to install a handler: it is read
/// back from its frame.
pub proof fn lemma_install_ack_round_trip(r: InstallAck)
    ensures
        read::<InstallAck>(frame(r)) == Ok::<Datum, Error>(r.datum()),
{
    reveal_strlit("%%<install");
    let tag = InstallAck::tag();
    assert(is_tag(tag)) by {
        if tag.contains(':') {
            let k = choose|k: int| 0 <= k < tag.len() && tag[k] == ':';
            assert(0 <= k < 10);
        }
    }
    lemma_plain_round_trip::<InstallAck>(r);
}

/// Round trip, for the request to remove a handler: it is read back from its
/// frame.
pub proof fn lemma_uninstall_round_trip(r: UninstallReq)
    ensures
        read::<UninstallReq>(frame(r)) == Ok::<Datum, Error>(r.datum()),
{
    reveal_strlit("%%>uninstall");
    let tag = UninstallReq::tag();
    assert(is_tag(tag)) by {
        if tag.contains(':') {
            let k = choose|k: int| 0 <= k < tag.len() && tag[k] == ':';
            assert(0 <= k < 12);
        }
    }
    lemma_plain_round_trip::<UninstallReq>(r);
}

/// Round trip, for the answer to the request to remove a handler: it is read
/// back from its frame.
pub proof fn lemma_uninstall_ack_round_trip(r: UninstallAck)
    ensures
        read::<UninstallAck>(frame(r)) == Ok::<Datum, Error>(r.datum()),
{
    reveal_strlit("%%<uninstall");
    let tag = UninstallAck::tag();
    assert(is_tag(tag)) by {
        if tag.contains(':') {
            let k = choose|k: int| 0 <= k < tag.len() && tag[k] == ':';
            assert(0 <= k < 12);
        }
    }
    lemma_plain_round_trip::<UninstallAck>(r);
}

/// Round trip, for the request to install a watcher: it is read back from its
/// frame.
pub proof fn lemma_watch_round_trip(r: WatchReq)
    ensures
        read::<WatchReq>(frame(r)) == Ok::<Datum, Error>(r.datum()),
{
    reveal_strlit("%%>watch");
    let tag = WatchReq::tag();
    assert(is_tag(tag)) by {
        if tag.contains(':') {
            let k = choose|k: int| 0 <= k < tag.len() && tag[k] == ':';
            assert(0 <= k < 8);
        }
    }
    lemma_plain_round_trip::<WatchReq>(r);
}

/// Round trip, for the answer to the request to install a watcher: it is read
/// back from its frame.
pub proof fn lemma_watch_ack_round_trip(r: WatchAck)
    ensures
        read::<WatchAck>(frame(r)) == Ok::<Datum, Error>(r.datum()),
{
    reveal_strlit("%%<watch");
    let tag = WatchAck::tag();
    assert(is_tag(tag)) by {
        if tag.contains(':') {
            let k = choose|k: int| 0 <= k < tag.len() && tag[k] == ':';
            assert(0 <= k < 8);
        }
    }
    lemma_plain_round_trip::<WatchAck>(r);
}

/// Round trip, for the request to remove a watcher: it is read back from its
/// frame.
pub proof fn lemma_unwatch_round_trip(r: UnwatchReq)
    ensures
        read::<UnwatchReq>(frame(r)) == Ok::<Datum, Error>(r.datum()),
{
    reveal_strlit("%%>unwatch");
    let tag = UnwatchReq::tag();
    assert(is_tag(tag)) by {
        if tag.contains(':') {
            let k = choose|k: int| 0 <= k < tag.len() && tag[k] == ':';
            assert(0 <= k < 10);
        }
    }
    lemma_plain_round_trip::<UnwatchReq>(r);
}

/// Round trip, for the answer to the request to remove a watcher: it is read
/// back from its frame.
pub proof fn lemma_unwatch_ack_round_trip(r: UnwatchAck)
    ensures
        read::<UnwatchAck>(frame(r)) == Ok::<Datum, Error>(r.datum()),
{
    reveal_strlit("%%<unwatch");
    let tag = UnwatchAck::tag();
    assert(is_tag(tag)) by {
        if tag.contains(':') {
            let k = choose|k: int| 0 <= k < tag.len() && tag[k] == ':';
            assert(0 <= k < 10);
        }
    }
    lemma_plain_round_trip::<UnwatchAck>(r);
}

/// Round trip, for the request to change or query a local parameter: it is
/// read back from its frame, unless it holds a present value that is
/// empty: an empty value would be read as a query.
pub proof fn lemma_setlocal_round_trip(r: SetLocalReq)
    requires
        r.value matches Some(value) ==> value@.len() > 0,
    ensures
        read::<SetLocalReq>(frame(r)) == Ok::<Datum, Error>(r.datum()),
{
    reveal_strlit("%%>setlocal");
    let tag = SetLocalReq::tag();
    assert(is_tag(tag)) by {
        if tag.contains(':') {
            let k = choose|k: int| 0 <= k < tag.len() && tag[k] == ':';
            assert(0 <= k < 11);
        }
    }
    lemma_plain_round_trip::<SetLocalReq>(r);
}

/// Round trip, for the answer to the request to change or query a local
/// parameter: it is read back from its frame.
pub proof fn lemma_setlocal_ack_round_trip(r: SetLocalAck)
    ensures
        read::<SetLocalAck>(frame(r)) == Ok::<Datum, Error>(r.datum()),
{
    reveal_strlit("%%<setlocal");
    let tag = SetLocalAck::tag();
    assert(is_tag(tag)) by {
        if tag.contains(':') {
            let k = choose|k: int| 0 <= k < tag.len() && tag[k] == ':';
            assert(0 <= k < 11);
        }
    }
    lemma_plain_round_trip::<SetLocalAck>(r);
}

/// Round trip, for a text for the log: it is read back from its frame.
pub proof fn lemma_output_round_trip(r: Output)
    ensures
        read::<Output>(frame(r)) == Ok::<Datum, Error>(r.datum()),
{
    reveal_strlit("%%>output");
    let tag = Output::tag();
    assert(is_tag(tag)) by {
        if tag.contains(':') {
            let k = choose|k: int| 0 <= k < tag.len() && tag[k] == ':';
            assert(0 <= k < 9);
        }
    }
    lemma_plain_round_trip::<Output>(r);
}

/// Round trip, for a debug text for the log: it is read back from its frame.
pub proof fn lemma_debug_round_trip(r: super::control::Debug)
    ensures
        read::<super::control::Debug>(frame(r)) == Ok::<Datum, Error>(r.datum()),
{
    reveal_strlit("%%>debug");
    let tag = super::control::Debug::tag();
    assert(is_tag(tag)) by {
        if tag.contains(':') {
            let k = choose|k: int| 0 <= k < tag.len() && tag[k] == ':';
            assert(0 <= k < 8);
        }
    }
    lemma_plain_round_trip::<super::control::Debug>(r);
}

/// Round trip, for the request to quit: it is read back from its frame.
pub proof fn lemma_quit_round_trip(r: Quit)
    ensures
        read::<Quit>(frame(r)) == Ok::<Datum, Error>(r.datum()),
{
    reveal_strlit("%%>quit");
    let tag = Quit::tag();
    assert(is_tag(tag)) by {
        if tag.contains(':') {
            let k = choose|k: int| 0 <= k < tag.len() && tag[k] == ':';
            assert(0 <= k < 7);
        }
    }
    lemma_plain_round_trip::<Quit>(r);
}

/// Round trip, for the answer to the request to quit: it is read back from
/// its frame.
pub proof fn lemma_quit_ack_round_trip(r: QuitAck)
    ensures
        read::<QuitAck>(frame(r)) == Ok::<Datum, Error>(r.datum()),
{
    reveal_strlit("%%<quit");
    let tag = QuitAck::tag();
    assert(is_tag(tag)) by {
        if tag.contains(':') {
            let k = choose|k: int| 0 <= k < tag.len() && tag[k] == ':';
            assert(0 <= k < 7);
        }
    }
    lemma_plain_round_trip::<QuitAck>(r);
}

/// Round trip, for the report of a line in error: it is read back from its
/// frame, whatever the line holds.
pub proof fn lemma_error_in_round_trip(r: ErrorIn)
    ensures
        read::<ErrorIn>(frame(r)) == Ok::<Datum, Error>(r.datum()),
{
    reveal_strlit("Error in");
    let tag = ErrorIn::tag();
    assert(is_tag(tag)) by {
        if tag.contains(':') {
            let k = choose|k: int| 0 <= k < tag.len() && tag[k] == ':';
            assert(0 <= k < 8);
        }
    }
    let values = r.datum()->Struct_0;
    let slots = ErrorIn::layout()->Struct_0;
    let body = pieces(r.original@, ':');
    let whole = wire_record(tag, r.datum(), ErrorIn::layout());
    lemma_pieces_nonempty(r.original@, ':');
    lemma_pieces_hold_no_separator(r.original@, ':');
    lemma_joined_pieces(r.original@, ':');
    assert(wire_fields(values, slots, false, 0) =~= Seq::empty());
    assert(wire(values[0], slots[0].layout, false) == body);
    assert(wire_fields(values, slots, false, 1) =~= body);
    assert(whole =~= seq![tag] + body);
    lemma_segments_joined(whole);
    assert(whole.drop_first() =~= body);
    let first = parse_value(slots[0].layout, body, false)->Ok_0;
    assert(parse_fields(slots, 1, first.rest, false) == Ok::<ParsedFields, Error>(
        ParsedFields { values: Seq::empty(), rest: first.rest },
    ));
    let got = parse_fields(slots, 0, body, false)->Ok_0;
    assert(got.values =~= values);
}

/// Whether the parameters of a message are written so that they are read
/// back: their keys strictly ascend, as those of every parameters do, and no
/// key holds a `=`, since a segment is split at its first `=`.
pub open spec fn stable_params(entries: Seq<(Seq<char>, Seq<char>)>) -> bool {
    &&& ascending(entries)
    &&& forall|i: int| 0 <= i < entries.len() ==> !(#[trigger] entries[i]).0.contains('=')
}

/// The encoding of a text without `=` holds no `=`.
pub proof fn lemma_encode_no_equals(s: Seq<char>)
    requires
        !s.contains('='),
    ensures
        !encode_spec(s).contains('='),
    decreases s.len(),
{
    if s.len() > 0 {
        let front = s.drop_last();
        assert(!front.contains('=')) by {
            if front.contains('=') {
                let k = choose|k: int| 0 <= k < front.len() && front[k] == '=';
                assert(s[k] == '=');
            }
        }
        assert(s[s.len() - 1] != '=');
        lemma_encode_no_equals(front);
        let before = encode_spec(front);
        let last = encode_char(s.last());
        let all = encode_spec(s);
        lemma_upcode_is_no_equals(s.last());
        if all.contains('=') {
            let k = choose|k: int| 0 <= k < all.len() && all[k] == '=';
            if k < before.len() {
                assert(before[k] == '=');
            } else {
                assert(last[k - before.len()] == '=');
            }
        }
    }
}

/// The encoding of a character other than `=` holds no `=`.
proof fn lemma_upcode_is_no_equals(c: char)
    requires
        c != '=',
    ensures
        !encode_char(c).contains('='),
{
    let code = c as u32;
    if is_special(c) && c != '%' {
        assert(((code + 64) as char) as u32 == code + 64);
    }
    let e = encode_char(c);
    if e.contains('=') {
        let k = choose|k: int| 0 <= k < e.len() && e[k] == '=';
        assert(k == 0 || k == 1);
    }
}

/// An entry is read back from its segment, if its key holds no `=`.
pub proof fn lemma_read_entry(entry: (Seq<char>, Seq<char>))
    requires
        !entry.0.contains('='),
    ensures
        entry_wire(entry).contains('='),
        !entry_wire(entry).contains(':'),
        entry_of(entry_wire(entry)) == Ok::<(Seq<char>, Seq<char>), Error>(entry),
{
    let key = encode_spec(entry.0);
    let value = encode_spec(entry.1);
    let segment = entry_wire(entry);
    let at = key.len() as int;
    lemma_encode_no_equals(entry.0);
    lemma_encode_no_colon(entry.0);
    lemma_encode_no_colon(entry.1);
    assert(segment[at] == '=');
    assert forall|j: int| 0 <= j < at implies segment[j] != '=' by {
        assert(segment[j] == key[j]);
    }
    lemma_find_is(segment, '=', at);
    assert(segment.take(at) =~= key);
    assert(segment.skip(at + 1) =~= value);
    lemma_decode_encode(entry.0);
    lemma_decode_encode(entry.1);
    if segment.contains(':') {
        let k = choose|k: int| 0 <= k < segment.len() && segment[k] == ':';
        if k < at {
            assert(key[k] == ':');
        } else if k > at {
            assert(value[k - at - 1] == ':');
        }
    }
}

/// Reading the segments of the entries from `from` on, into the entries
/// before them, gives all the entries.
pub proof fn lemma_read_entries(entries: Seq<(Seq<char>, Seq<char>)>, from: int)
    requires
        stable_params(entries),
        0 <= from <= entries.len(),
    ensures
        entries_of(pairs_wire(entries).skip(from), entries.take(from)) == Ok::<
            Seq<(Seq<char>, Seq<char>)>,
            Error,
        >(entries),
    decreases entries.len() - from,
{
    let parts = pairs_wire(entries).skip(from);
    let so_far = entries.take(from);
    if from == entries.len() {
        assert(so_far =~= entries);
    } else {
        let entry = entries[from];
        assert(parts[0] == entry_wire(entry));
        lemma_read_entry(entry);
        assert forall|j: int| 0 <= j < from implies super::params::text_lt(
            #[trigger] so_far[j].0,
            entry.0,
        ) by {
            assert(so_far[j] == entries[j]);
        }
        lemma_rank_is(so_far, entry.0, from);
        assert(put(so_far, entry.0, entry.1) =~= entries.take(from + 1));
        assert(parts.drop_first() =~= pairs_wire(entries).skip(from + 1));
        lemma_read_entries(entries, from + 1);
    }
}

/// Parameters are read back from their segments.
pub proof fn lemma_read_params(entries: Seq<(Seq<char>, Seq<char>)>)
    requires
        stable_params(entries),
    ensures
        parse_pairs(pairs_wire(entries)) == Ok::<Seq<(Seq<char>, Seq<char>)>, Error>(entries),
{
    let parts = pairs_wire(entries);
    assert forall|i: int| 0 <= i < parts.len() implies (#[trigger] parts[i]).contains('=') by {
        lemma_read_entry(entries[i]);
    }
    lemma_read_entries(entries, 0);
    assert(parts.skip(0) =~= parts);
    assert(entries.take(0) =~= Seq::empty());
}

/// Whether a record is made of simple fields and, after them, of
/// parameters.
pub open spec fn is_plain_with_params(value: Datum, layout: Layout) -> bool {
    &&& value is Struct
    &&& layout is Struct
    &&& value->Struct_0.len() == layout->Struct_0.len()
    &&& value->Struct_0.len() > 0
    &&& all_simple(value->Struct_0, layout->Struct_0, value->Struct_0.len() - 1)
    &&& layout->Struct_0.last() == slot(Layout::Pairs)
    &&& value->Struct_0.last() is Pairs
    &&& stable_params(value->Struct_0.last()->Pairs_0)
}

/// The segments of a record of simple fields and parameters: its tag, the
/// segments of the simple fields, the segments of the parameters. None of
/// them holds a colon.
pub proof fn lemma_params_wire(tag: Seq<char>, layout: Layout, value: Datum)
    requires
        is_tag(tag),
        is_plain_with_params(value, layout),
    ensures
        ({
            let values = value->Struct_0;
            let n = values.len() - 1;
            let whole = wire_record(tag, value, layout);
            &&& whole == seq![tag] + (simple_wires(values, n) + pairs_wire(values[n]->Pairs_0))
            &&& forall|i: int| 0 <= i < whole.len() ==> !(#[trigger] whole[i]).contains(':')
        }),
{
    let values = value->Struct_0;
    let slots = layout->Struct_0;
    let n = values.len() - 1;
    let entries = values[n]->Pairs_0;
    let head = simple_wires(values, n);
    let tail = pairs_wire(entries);
    let whole = wire_record(tag, value, layout);
    lemma_simple_wires(values, slots, n);
    assert(wire(values[n], slots[n].layout, false) == tail);
    assert(wire_fields(values, slots, false, (n + 1) as nat) == head + tail);
    assert(whole =~= seq![tag] + (head + tail));
    assert forall|i: int| 0 <= i < whole.len() implies !(#[trigger] whole[i]).contains(':') by {
        if 0 < i <= n {
            lemma_simple_wire_no_colon(values[i - 1]);
        } else if i > n {
            assert(whole[i] == entry_wire(entries[i - n - 1]));
            lemma_read_entry(entries[i - n - 1]);
        }
    }
}

/// A record of simple fields and parameters is read back from its segments,
/// and from its frame.
pub proof fn lemma_params_read(tag: Seq<char>, layout: Layout, value: Datum)
    requires
        is_tag(tag),
        is_plain_with_params(value, layout),
    ensures
        parse_record(tag, layout, wire_record(tag, value, layout)) == Ok::<Datum, Error>(value),
        segments(joined(wire_record(tag, value, layout), ':')) == wire_record(tag, value, layout),
{
    let values = value->Struct_0;
    let slots = layout->Struct_0;
    let n = values.len() - 1;
    let entries = values[n]->Pairs_0;
    let head = simple_wires(values, n);
    let tail = pairs_wire(entries);
    let whole = wire_record(tag, value, layout);
    lemma_params_wire(tag, layout, value);
    lemma_segments_joined(whole);
    assert(whole.drop_first() =~= head.skip(0) + tail);
    lemma_read_simple(values, slots, 0, n, tail);
    lemma_read_params(entries);
    let last = parse_value(slots[n].layout, tail, false)->Ok_0;
    assert(last.value == values[n]);
    assert(parse_fields(slots, n + 1, last.rest, false) == Ok::<ParsedFields, Error>(
        ParsedFields { values: Seq::empty(), rest: last.rest },
    ));
    let after = parse_fields(slots, n, tail, false)->Ok_0;
    assert(after.values =~= seq![values[n]]);
    assert(values.subrange(0, n) + seq![values[n]] =~= values);
}

/// Round trip, for a record of simple fields and parameters: it is read back
/// from its frame.
pub proof fn lemma_params_round_trip<T: Record>(r: T)
    requires
        is_tag(T::tag()),
        is_plain_with_params(r.datum(), T::layout()),
    ensures
        read::<T>(frame(r)) == Ok::<Datum, Error>(r.datum()),
{
    lemma_params_read(T::tag(), T::layout(), r.datum());
}

/// A record of simple fields and parameters, with the first `keep` of its
/// parameters only.
pub open spec fn cut_params(value: Datum, keep: int) -> Datum {
    let values = value->Struct_0;
    let n = values.len() - 1;
    Datum::Struct(values.update(n, Datum::Pairs(values[n]->Pairs_0.take(keep))))
}

/// Default truncation, for a record of simple fields and parameters: its
/// frame may end before the parameters, or after any of them. What is left
/// is where the whole frame starts; it is read as the record with the
/// parameters that were kept, and it is the frame of that record.
pub proof fn lemma_params_truncation(tag: Seq<char>, layout: Layout, value: Datum, keep: int)
    requires
        is_tag(tag),
        is_plain_with_params(value, layout),
        0 <= keep <= value->Struct_0.last()->Pairs_0.len(),
    ensures
        ({
            let whole = wire_record(tag, value, layout);
            let short = whole.take(value->Struct_0.len() + keep);
            let cut = cut_params(value, keep);
            &&& joined(short, ':').is_prefix_of(joined(whole, ':'))
            &&& segments(joined(short, ':')) == short
            &&& parse_record(tag, layout, short) == Ok::<Datum, Error>(cut)
            &&& wire_record(tag, cut, layout) == short
        }),
{
    let values = value->Struct_0;
    let n = values.len() - 1;
    let entries = values[n]->Pairs_0;
    let cut = cut_params(value, keep);
    let whole = wire_record(tag, value, layout);
    let short = whole.take(values.len() + keep);
    let kept = entries.take(keep);
    assert(stable_params(kept)) by {
        assert forall|i: int, j: int| 0 <= i < j < kept.len() implies super::params::text_lt(
            #[trigger] kept[i].0,
            #[trigger] kept[j].0,
        ) by {
            assert(kept[i] == entries[i] && kept[j] == entries[j]);
        }
        assert forall|i: int| 0 <= i < kept.len() implies !(#[trigger] kept[i]).0.contains('=') by {
            assert(kept[i] == entries[i]);
        }
    }
    assert(is_plain_with_params(cut, layout)) by {
        let others = cut->Struct_0;
        assert forall|i: int| 0 <= i < n implies super::laws::is_simple(
            #[trigger] others[i],
            layout->Struct_0[i],
        ) by {
            assert(others[i] == values[i]);
        }
    }
    lemma_params_wire(tag, layout, value);
    lemma_params_wire(tag, layout, cut);
    assert(simple_wires(cut->Struct_0, n) =~= simple_wires(values, n));
    assert(pairs_wire(kept) =~= pairs_wire(entries).take(keep));
    assert(wire_record(tag, cut, layout) =~= short);
    lemma_params_read(tag, layout, cut);
    super::text::lemma_joined_prefix(whole, values.len() + keep, ':');
}

/// Default truncation, for a message: its frame may end before its
/// parameters, or after any of them.
pub proof fn lemma_message_truncation(r: MessageReq, keep: int)
    requires
        stable_params(r.kv@),
        0 <= keep <= r.kv@.len(),
    ensures
        ({
            let whole = wire_record(MessageReq::tag(), r.datum(), MessageReq::layout());
            let short = joined(whole.take(5 + keep), ':');
            &&& short.is_prefix_of(frame(r))
            &&& read::<MessageReq>(short) == Ok::<Datum, Error>(cut_params(r.datum(), keep))
            &&& joined(
                wire_record(MessageReq::tag(), cut_params(r.datum(), keep), MessageReq::layout()),
                ':',
            ) == short
        }),
{
    reveal_strlit("%%>message");
    let tag = MessageReq::tag();
    assert(is_tag(tag)) by {
        if tag.contains(':') {
            let k = choose|k: int| 0 <= k < tag.len() && tag[k] == ':';
            assert(0 <= k < 10);
        }
    }
    lemma_params_truncation(tag, MessageReq::layout(), r.datum(), keep);
}

/// Default truncation, for the answer to a message: its frame may end before
/// its parameters, or after any of them.
pub proof fn lemma_message_ack_truncation(r: MessageAck, keep: int)
    requires
        stable_params(r.kv@),
        r.name matches Some(name) ==> name@.len() > 0,
        0 <= keep <= r.kv@.len(),
    ensures
        ({
            let whole = wire_record(MessageAck::tag(), r.datum(), MessageAck::layout());
            let short = joined(whole.take(5 + keep), ':');
            &&& short.is_prefix_of(frame(r))
            &&& read::<MessageAck>(short) == Ok::<Datum, Error>(cut_params(r.datum(), keep))
            &&& joined(
                wire_record(MessageAck::tag(), cut_params(r.datum(), keep), MessageAck::layout()),
                ':',
            ) == short
        }),
{
    reveal_strlit("%%<message");
    let tag = MessageAck::tag();
    assert(is_tag(tag)) by {
        if tag.contains(':') {
            let k = choose|k: int| 0 <= k < tag.len() && tag[k] == ':';
            assert(0 <= k < 10);
        }
    }
    lemma_params_truncation(tag, MessageAck::layout(), r.datum(), keep);
}

/// Round trip, for a message: it is read back from its frame.
pub proof fn lemma_message_round_trip(r: MessageReq)
    requires
        stable_params(r.kv@),
    ensures
        read::<MessageReq>(frame(r)) == Ok::<Datum, Error>(r.datum()),
{
    reveal_strlit("%%>message");
    let tag = MessageReq::tag();
    assert(is_tag(tag)) by {
        if tag.contains(':') {
            let k = choose|k: int| 0 <= k < tag.len() && tag[k] == ':';
            assert(0 <= k < 10);
        }
    }
    lemma_params_round_trip::<MessageReq>(r);
}

/// Round trip, for the answer to a message: it is read back from its frame,
/// unless it holds a present name that is empty: an empty name would be read
/// as no name.
pub proof fn lemma_message_ack_round_trip(r: MessageAck)
    requires
        stable_params(r.kv@),
        r.name matches Some(name) ==> name@.len() > 0,
    ensures
        read::<MessageAck>(frame(r)) == Ok::<Datum, Error>(r.datum()),
{
    reveal_strlit("%%<message");
    let tag = MessageAck::tag();
    assert(is_tag(tag)) by {
        if tag.contains(':') {
            let k = choose|k: int| 0 <= k < tag.len() && tag[k] == ':';
            assert(0 <= k < 10);
        }
    }
    lemma_params_round_trip::<MessageAck>(r);
}

/// A frame that is read back as what it was written from is written again
/// as it was.
pub proof fn lemma_frame_round_trip<T: Record>(r: T, back: T)
    requires
        read::<T>(frame(r)) == Ok::<Datum, Error>(back.datum()),
        read::<T>(frame(r)) == Ok::<Datum, Error>(r.datum()),
    ensures
        frame(back) == frame(r),
{
}

} // verus!
