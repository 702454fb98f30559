//! Text handling shared by the wire format: splitting a frame into its
//! colon-separated segments, joining them back, and comparing texts.

use std::collections::VecDeque;
use vstd::prelude::*;
use vstd::std_specs::iter::IteratorSpec;

verus! {

/// `String::push` appends the given character to the end of the string.
pub assume_specification[ String::push ](s: &mut String, ch: char)
    ensures
        final(s)@ == old(s)@.push(ch),
;

/// The length of a line, in bytes, up to which the engine is sure to take it
/// with its default settings. A longer line is permitted, but worth a
/// warning.
pub const SOFT_BOUND: usize = 8192;

/// Whether a line is longer than [`SOFT_BOUND`].
pub fn is_long(line: &str) -> (r: bool)
    ensures
        r == (line.len() > SOFT_BOUND),
{
    line.len() > SOFT_BOUND
}

/// The texts that a sequence of strings holds.
pub open spec fn texts(parts: Seq<String>) -> Seq<Seq<char>> {
    Seq::new(parts.len(), |i: int| parts[i]@)
}

/// The pieces of `s` between the occurrences of `sep`; one piece more than
/// there are occurrences, so a text without `sep` is its own single piece.
pub open spec fn pieces(s: Seq<char>, sep: char) -> Seq<Seq<char>>
    decreases s.len(),
{
    if s.len() == 0 {
        seq![Seq::empty()]
    } else {
        let before = pieces(s.drop_last(), sep);
        if s.last() == sep {
            before.push(Seq::empty())
        } else {
            before.drop_last().push(before.last().push(s.last()))
        }
    }
}

/// The segments of a frame: an empty frame has none, any other frame has the
/// pieces between its colons.
pub open spec fn segments(frame: Seq<char>) -> Seq<Seq<char>> {
    if frame.len() == 0 {
        Seq::empty()
    } else {
        pieces(frame, ':')
    }
}

/// The parts in order, with `sep` between each two.
pub open spec fn joined(parts: Seq<Seq<char>>, sep: char) -> Seq<char>
    decreases parts.len(),
{
    if parts.len() == 0 {
        Seq::empty()
    } else if parts.len() == 1 {
        parts[0]
    } else {
        joined(parts.drop_last(), sep).push(sep) + parts.last()
    }
}

/// There is always at least one piece.
pub proof fn lemma_pieces_nonempty(s: Seq<char>, sep: char)
    ensures
        pieces(s, sep).len() >= 1,
    decreases s.len(),
{
    if s.len() > 0 {
        lemma_pieces_nonempty(s.drop_last(), sep);
    }
}

/// Cut a text into the pieces between the occurrences of `sep`.
pub fn cut(text: &str, sep: char) -> (parts: VecDeque<String>)
    ensures
        texts(parts@) == pieces(text@, sep),
{
    let mut parts: VecDeque<String> = VecDeque::new();
    let mut current = String::new();
    let chars = text.chars();
    for ch in it: chars
        invariant
            it.seq() == text@,
            texts(parts@).push(current@) == pieces(text@.take(it.index()), sep),
    {
        proof {
            assert(text@.take(it.index() + 1).drop_last() == text@.take(it.index()));
            lemma_pieces_nonempty(text@.take(it.index()), sep);
        }
        let ghost before = texts(parts@).push(current@);
        if ch == sep {
            parts.push_back(current);
            current = String::new();
            proof {
                assert(texts(parts@) =~= before);
            }
        } else {
            current.push(ch);
            proof {
                assert(texts(parts@).push(current@) =~= before.drop_last().push(
                    before.last().push(ch),
                ));
            }
        }
    }
    proof {
        assert(text@.take(text@.len() as int) == text@);
    }
    let ghost before = texts(parts@).push(current@);
    parts.push_back(current);
    proof {
        assert(texts(parts@) =~= before);
    }
    parts
}

/// Split a frame into its segments.
pub fn split(frame: &str) -> (parts: VecDeque<String>)
    ensures
        texts(parts@) == segments(frame@),
{
    if frame.is_empty() {
        let parts: VecDeque<String> = VecDeque::new();
        proof {
            assert(texts(parts@) =~= Seq::empty());
        }
        parts
    } else {
        cut(frame, ':')
    }
}

/// Cutting a text at a separator and joining the pieces with it gives the
/// text back.
pub proof fn lemma_joined_pieces(s: Seq<char>, sep: char)
    ensures
        joined(pieces(s, sep), sep) == s,
    decreases s.len(),
{
    if s.len() == 0 {
        assert(pieces(s, sep)[0] =~= s);
    } else {
        let before = pieces(s.drop_last(), sep);
        lemma_joined_pieces(s.drop_last(), sep);
        lemma_pieces_nonempty(s.drop_last(), sep);
        if s.last() == sep {
            let all = before.push(Seq::empty());
            assert(all.drop_last() =~= before);
            assert(joined(all, sep) =~= s);
        } else {
            let all = before.drop_last().push(before.last().push(s.last()));
            assert(all.drop_last() =~= before.drop_last());
            if before.len() > 1 {
                assert(joined(before, sep) == joined(before.drop_last(), sep).push(sep)
                    + before.last());
                assert(joined(all, sep) == joined(all.drop_last(), sep).push(sep) + all.last());
            }
            assert(s =~= s.drop_last().push(s.last()));
            assert(joined(all, sep) =~= s);
        }
    }
}

/// No piece holds the separator.
pub proof fn lemma_pieces_hold_no_separator(s: Seq<char>, sep: char)
    ensures
        forall|i: int| 0 <= i < pieces(s, sep).len() ==> !(#[trigger] pieces(s, sep)[i]).contains(sep),
    decreases s.len(),
{
    let all = pieces(s, sep);
    if s.len() == 0 {
        assert forall|i: int| 0 <= i < all.len() implies !(#[trigger] all[i]).contains(sep) by {
            assert(all[i].len() == 0);
        }
    } else {
        let before = pieces(s.drop_last(), sep);
        lemma_pieces_hold_no_separator(s.drop_last(), sep);
        lemma_pieces_nonempty(s.drop_last(), sep);
        assert forall|i: int| 0 <= i < all.len() implies !(#[trigger] all[i]).contains(sep) by {
            if i < before.len() - 1 {
                assert(all[i] == before[i]);
            } else if s.last() == sep {
                if i == before.len() - 1 {
                    assert(all[i] == before[i]);
                } else {
                    assert(all[i].len() == 0);
                }
            } else {
                let last = before.last();
                assert(all[i] == last.push(s.last()));
                if all[i].contains(sep) {
                    let k = choose|k: int| 0 <= k < all[i].len() && all[i][k] == sep;
                    if k < last.len() {
                        assert(last[k] == sep);
                    }
                }
            }
        }
    }
}

/// A text without the separator, added to the end of another, adds no piece:
/// it is added to the end of the last one.
pub proof fn lemma_pieces_append(s: Seq<char>, t: Seq<char>, sep: char)
    requires
        !t.contains(sep),
    ensures
        pieces(s + t, sep) == pieces(s, sep).drop_last().push(pieces(s, sep).last() + t),
    decreases t.len(),
{
    lemma_pieces_nonempty(s, sep);
    let before = pieces(s, sep);
    if t.len() == 0 {
        assert(s + t =~= s);
        assert(before.last() + t =~= before.last());
        assert(before.drop_last().push(before.last()) =~= before);
    } else {
        let shorter = t.drop_last();
        assert(!shorter.contains(sep)) by {
            if shorter.contains(sep) {
                let k = choose|k: int| 0 <= k < shorter.len() && shorter[k] == sep;
                assert(t[k] == sep);
            }
        }
        assert(t.last() != sep) by {
            assert(t[t.len() - 1] == t.last());
        }
        lemma_pieces_append(s, shorter, sep);
        assert((s + t).drop_last() =~= s + shorter);
        assert((s + t).last() == t.last());
        let upto = pieces(s + shorter, sep);
        assert(upto.drop_last() =~= before.drop_last());
        assert(upto.last() == before.last() + shorter);
        assert((before.last() + shorter).push(t.last()) =~= before.last() + t);
        assert(upto.drop_last().push(upto.last().push(t.last())) =~= before.drop_last().push(
            before.last() + t,
        ));
    }
}

/// Joining parts that do not hold the separator and cutting the result at
/// the separator gives the parts back.
pub proof fn lemma_pieces_joined(parts: Seq<Seq<char>>, sep: char)
    requires
        parts.len() > 0,
        forall|i: int| 0 <= i < parts.len() ==> !(#[trigger] parts[i]).contains(sep),
    ensures
        pieces(joined(parts, sep), sep) == parts,
    decreases parts.len(),
{
    if parts.len() == 1 {
        lemma_pieces_append(Seq::empty(), parts[0], sep);
        assert(Seq::<char>::empty() + parts[0] =~= parts[0]);
        assert(pieces(Seq::empty(), sep) =~= seq![Seq::<char>::empty()]);
        assert(pieces(joined(parts, sep), sep) =~= parts);
    } else {
        let front = parts.drop_last();
        let start = joined(front, sep);
        lemma_pieces_joined(front, sep);
        lemma_pieces_append(start.push(sep), parts.last(), sep);
        assert(start.push(sep).drop_last() =~= start);
        assert(pieces(start.push(sep), sep) == front.push(Seq::empty()));
        assert(Seq::<char>::empty() + parts.last() =~= parts.last());
        assert(pieces(joined(parts, sep), sep) =~= parts);
    }
}

/// What the first parts are joined into is where what all the parts are
/// joined into starts.
pub proof fn lemma_joined_prefix(parts: Seq<Seq<char>>, n: int, sep: char)
    requires
        0 <= n <= parts.len(),
    ensures
        joined(parts.take(n), sep).is_prefix_of(joined(parts, sep)),
    decreases parts.len() - n,
{
    if n == parts.len() {
        assert(parts.take(n) =~= parts);
    } else if n == 0 {
        assert(parts.take(0).len() == 0);
    } else {
        let front = parts.drop_last();
        lemma_joined_prefix(front, n, sep);
        assert(front.take(n) =~= parts.take(n));
        let short = joined(parts.take(n), sep);
        let mid = joined(front, sep);
        let all = joined(parts, sep);
        assert(all == mid.push(sep) + parts.last());
        assert(short =~= mid.subrange(0, short.len() as int));
        assert(short =~= all.subrange(0, short.len() as int));
    }
}

/// Join the parts into one frame, with a colon between each two.
pub fn join(parts: &Vec<String>) -> (frame: String)
    ensures
        frame@ == joined(texts(parts@), ':'),
{
    let mut frame = String::new();
    let mut i: usize = 0;
    while i < parts.len()
        invariant
            i <= parts.len(),
            frame@ == joined(texts(parts@).take(i as int), ':'),
        decreases parts.len() - i,
    {
        proof {
            let upto = texts(parts@).take(i as int + 1);
            assert(upto.drop_last() == texts(parts@).take(i as int));
            assert(upto.last() == parts@[i as int]@);
            if i == 0 {
                assert(Seq::<char>::empty() + parts@[0]@ =~= parts@[0]@);
            }
        }
        if i > 0 {
            frame.push(':');
        }
        frame.append(parts[i].as_str());
        i += 1;
    }
    proof {
        assert(texts(parts@).take(parts@.len() as int) == texts(parts@));
    }
    frame
}

/// Whether two texts are the same.
pub fn same(a: &str, b: &str) -> (r: bool)
    ensures
        r == (a@ == b@),
{
    let mut left = a.chars();
    let mut right = b.chars();
    let ghost mut n: int = 0;
    loop
        invariant
            left.obeys_prophetic_iter_laws(),
            right.obeys_prophetic_iter_laws(),
            left.decrease() is Some,
            0 <= n <= a@.len(),
            n <= b@.len(),
            left.remaining() == a@.skip(n),
            right.remaining() == b@.skip(n),
            a@.take(n) == b@.take(n),
        decreases left.decrease()->0,
    {
        let x = left.next();
        let y = right.next();
        match (x, y) {
            (None, None) => {
                proof {
                    assert(a@.take(n) == a@);
                    assert(b@.take(n) == b@);
                }
                return true;
            },
            (Some(p), Some(q)) => {
                if p != q {
                    proof {
                        assert(a@[n] != b@[n]);
                    }
                    return false;
                }
                proof {
                    assert(a@.skip(n).drop_first() == a@.skip(n + 1));
                    assert(b@.skip(n).drop_first() == b@.skip(n + 1));
                    assert(a@.take(n + 1) == a@.take(n).push(p));
                    assert(b@.take(n + 1) == b@.take(n).push(q));
                    n = n + 1;
                }
            },
            _ => {
                proof {
                    assert(a@.len() != b@.len());
                }
                return false;
            },
        }
    }
}

} // verus!
