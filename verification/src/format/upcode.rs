//! Upcodes encoding & decoding for the Yate Engine external module protocol.
//!
//! Any value that contains special characters (ASCII `<32`) has them converted
//! to `%<upcode>` where `<upcode>` is the character with a numeric value equal
//! to `64 + original ASCII code`. The `%` character itself is converted to `%%`
//! and the colon, which delimits values, to `%z`.

use std::borrow::Cow;
use vstd::prelude::*;
use vstd::std_specs::iter::IteratorSpec;

verus! {

/// An error that may occur while decoding `%`-encoded strings:
/// the character that followed a `%` is neither `%` nor in the `64..=127` range.
#[derive(Debug, Clone, Copy, PartialEq, Eq, Structural)]
pub struct DecodeError(pub char);

/// Whether `c` cannot stand for itself inside an encoded value.
pub open spec fn is_special(c: char) -> bool {
    (c as u32) < 32 || c == '%' || c == ':'
}

/// The character that follows `%` in the encoding of the special character `c`.
pub open spec fn upencode_spec(c: char) -> char {
    if c == '%' {
        '%'
    } else {
        ((c as u32) + 64) as char
    }
}

/// The character that `%` followed by `c` stands for, if any.
pub open spec fn updecode_spec(c: char) -> Result<char, DecodeError> {
    if c == '%' {
        Ok('%')
    } else if 64 <= (c as u32) <= 127 {
        Ok(((c as u32) - 64) as char)
    } else {
        Err(DecodeError(c))
    }
}

/// The encoding of one character.
pub open spec fn encode_char(c: char) -> Seq<char> {
    if is_special(c) {
        seq!['%', upencode_spec(c)]
    } else {
        seq![c]
    }
}

/// The encoding of a value: the encodings of its characters, in order.
pub open spec fn encode_spec(s: Seq<char>) -> Seq<char>
    decreases s.len(),
{
    if s.len() == 0 {
        Seq::empty()
    } else {
        encode_spec(s.drop_last()) + encode_char(s.last())
    }
}

/// The upcode of a special character.
fn upencode(ch: char) -> (r: char)
    requires
        is_special(ch),
    ensures
        r == upencode_spec(ch),
{
    if ch == '%' {
        ch
    } else {
        let code: u8 = ch as u8;
        (code + 64) as char
    }
}

/// The character that an upcode stands for.
fn updecode(ch: char) -> (r: Result<char, DecodeError>)
    ensures
        r == updecode_spec(ch),
{
    if ch == '%' {
        Ok(ch)
    } else {
        let code: u32 = ch as u32;
        if 64 <= code && code <= 127 {
            let low: u8 = (code - 64) as u8;
            Ok(low as char)
        } else {
            Err(DecodeError(ch))
        }
    }
}

/// Whether the value holds a character that has to be escaped.
fn has_special(value: &str) -> (r: bool)
    ensures
        r == exists|i: int| 0 <= i < value@.len() && is_special(#[trigger] value@[i]),
{
    let mut found = false;
    let chars = value.chars();
    for ch in it: chars
        invariant
            it.seq() == value@,
            found == exists|i: int| 0 <= i < it.index() && is_special(#[trigger] value@[i]),
    {
        if (ch as u32) < 32 || ch == '%' || ch == ':' {
            found = true;
        }
    }
    found
}

/// Encode a value for the wire.
///
/// A value without special characters is handed back as it is, borrowed.
pub fn encode(value: &str) -> (r: Cow<'_, str>)
    ensures
        r@ == encode_spec(value@),
        r matches Cow::Borrowed(_) <==> forall|i: int| 0 <= i < value@.len() ==> !is_special(#[trigger] value@[i]),
{
    if !has_special(value) {
        proof {
            lemma_encode_plain(value@);
        }
        return Cow::Borrowed(value);
    }
    let mut encoded = String::new();
    let chars = value.chars();
    for ch in it: chars
        invariant
            it.seq() == value@,
            encoded@ == encode_spec(value@.take(it.index())),
    {
        proof {
            assert(value@.take(it.index() + 1).drop_last() == value@.take(it.index()));
        }
        if (ch as u32) < 32 || ch == '%' || ch == ':' {
            encoded.push('%');
            encoded.push(upencode(ch));
        } else {
            encoded.push(ch);
        }
    }
    proof {
        assert(value@.take(value@.len() as int) == value@);
    }
    Cow::Owned(encoded)
}

/// A value without special characters is its own encoding.
pub proof fn lemma_encode_plain(s: Seq<char>)
    requires
        forall|i: int| 0 <= i < s.len() ==> !is_special(#[trigger] s[i]),
    ensures
        encode_spec(s) == s,
    decreases s.len(),
{
    if s.len() > 0 {
        lemma_encode_plain(s.drop_last());
        assert(encode_spec(s) =~= s);
    }
}

/// A decoded prefix followed by what the rest of the input decodes to.
pub open spec fn decoded_after(prefix: Seq<char>, rest: Result<Seq<char>, DecodeError>) -> Result<
    Seq<char>,
    DecodeError,
> {
    match rest {
        Ok(tail) => Ok(prefix + tail),
        Err(e) => Err(e),
    }
}

/// What an encoded value stands for.
///
/// A `%` and the character after it stand for one character; the first
/// character after a `%` that is no upcode is the error. A `%` at the very end
/// of the input stands for nothing.
pub open spec fn decode_spec(s: Seq<char>) -> Result<Seq<char>, DecodeError>
    decreases s.len(),
{
    if s.len() == 0 {
        Ok(Seq::empty())
    } else if s[0] != '%' {
        decoded_after(seq![s[0]], decode_spec(s.drop_first()))
    } else if s.len() == 1 {
        Ok(Seq::empty())
    } else {
        match updecode_spec(s[1]) {
            Ok(c) => decoded_after(seq![c], decode_spec(s.skip(2))),
            Err(e) => Err(e),
        }
    }
}

/// Whether the value holds a `%`.
fn has_percent(value: &str) -> (r: bool)
    ensures
        r == value@.contains('%'),
{
    let mut found = false;
    let chars = value.chars();
    for ch in it: chars
        invariant
            it.seq() == value@,
            found == value@.take(it.index()).contains('%'),
    {
        proof {
            let before = value@.take(it.index());
            let after = value@.take(it.index() + 1);
            assert(after == before.push(ch));
            if before.contains('%') {
                let k = choose|k: int| 0 <= k < before.len() && before[k] == '%';
                assert(after[k] == '%');
            }
            if ch == '%' {
                assert(after[it.index()] == '%');
            }
        }
        if ch == '%' {
            found = true;
        }
    }
    proof {
        assert(value@.take(value@.len() as int) == value@);
    }
    found
}

/// Decode a value received from the wire.
///
/// A value without `%` is handed back as it is, borrowed.
pub fn decode(value: &str) -> (r: Result<Cow<'_, str>, DecodeError>)
    ensures
        match r {
            Ok(decoded) => decode_spec(value@) == Ok::<Seq<char>, DecodeError>(decoded@),
            Err(e) => decode_spec(value@) == Err::<Seq<char>, DecodeError>(e),
        },
        r matches Ok(Cow::Borrowed(_)) <==> !value@.contains('%'),
{
    if !has_percent(value) {
        proof {
            lemma_decode_plain(value@);
        }
        return Ok(Cow::Borrowed(value));
    }
    let mut decoded = String::new();
    let mut chars = value.chars();
    loop
        invariant
            value@.contains('%'),
            chars.obeys_prophetic_iter_laws(),
            chars.decrease() is Some,
            decode_spec(value@) == decoded_after(decoded@, decode_spec(chars.remaining())),
        ensures
            decode_spec(value@) == Ok::<Seq<char>, DecodeError>(decoded@),
        decreases chars.decrease()->0,
    {
        let ghost rest = chars.remaining();
        let ghost before = decoded@;
        match chars.next() {
            None => {
                proof {
                    assert(before + Seq::<char>::empty() =~= before);
                }
                break ;
            },
            Some(ch) => {
                if ch == '%' {
                    match chars.next() {
                        None => {
                            proof {
                                assert(before + Seq::<char>::empty() =~= before);
                            }
                            break ;
                        },
                        Some(code) => {
                            proof {
                                assert(rest.drop_first().drop_first() == rest.skip(2));
                            }
                            match updecode(code) {
                                Ok(plain) => {
                                    decoded.push(plain);
                                    proof {
                                        lemma_decoded_after_push(before, plain, decode_spec(rest.skip(2)));
                                    }
                                },
                                Err(e) => {
                                    return Err(e);
                                },
                            }
                        },
                    }
                } else {
                    decoded.push(ch);
                    proof {
                        lemma_decoded_after_push(before, ch, decode_spec(rest.drop_first()));
                    }
                }
            },
        }
    }
    Ok(Cow::Owned(decoded))
}

/// A decoded character may be counted with the prefix or with the rest.
proof fn lemma_decoded_after_push(prefix: Seq<char>, c: char, rest: Result<Seq<char>, DecodeError>)
    ensures
        decoded_after(prefix, decoded_after(seq![c], rest)) == decoded_after(prefix.push(c), rest),
{
    if let Ok(tail) = rest {
        assert(prefix + (seq![c] + tail) =~= prefix.push(c) + tail);
    }
}

/// A value without `%` stands for itself.
pub proof fn lemma_decode_plain(s: Seq<char>)
    requires
        !s.contains('%'),
    ensures
        decode_spec(s) == Ok::<Seq<char>, DecodeError>(s),
    decreases s.len(),
{
    if s.len() > 0 {
        assert(s[0] != '%');
        let tail = s.drop_first();
        assert(!tail.contains('%')) by {
            if tail.contains('%') {
                let k = choose|k: int| 0 <= k < tail.len() && tail[k] == '%';
                assert(s[k + 1] == '%');
            }
        }
        lemma_decode_plain(tail);
        assert(seq![s[0]] + tail =~= s);
    } else {
        assert(s =~= Seq::empty());
    }
}

/// The encoding of a value starts with the encoding of its first character.
pub proof fn lemma_encode_front(s: Seq<char>)
    requires
        s.len() > 0,
    ensures
        encode_spec(s) == encode_char(s[0]) + encode_spec(s.drop_first()),
    decreases s.len(),
{
    if s.len() == 1 {
        assert(s.drop_last() =~= Seq::empty());
        assert(s.drop_first() =~= Seq::empty());
        assert(encode_spec(s) =~= encode_char(s[0]) + encode_spec(s.drop_first()));
    } else {
        lemma_encode_front(s.drop_last());
        assert(s.drop_last().drop_first() == s.drop_first().drop_last());
        assert(encode_spec(s) =~= encode_char(s[0]) + encode_spec(s.drop_first()));
    }
}

/// Decoding what the encoding of one character is followed by.
pub proof fn lemma_decode_encoded_char(c: char, rest: Seq<char>)
    ensures
        decode_spec(encode_char(c) + rest) == decoded_after(seq![c], decode_spec(rest)),
{
    let whole = encode_char(c) + rest;
    if is_special(c) {
        assert(whole[0] == '%');
        assert(whole[1] == upencode_spec(c));
        assert(whole.skip(2) =~= rest);
        assert(updecode_spec(upencode_spec(c)) == Ok::<char, DecodeError>(c)) by {
            if c != '%' {
                let code = c as u32;
                assert(code < 32 || code == 58);
                assert(((code + 64) as char) as u32 == code + 64);
                assert(((code + 64 - 64) as char) == c);
            }
        }
    } else {
        assert(whole[0] == c);
        assert(whole.drop_first() =~= rest);
    }
}

/// Decoding undoes encoding, for every value.
pub proof fn lemma_decode_encode(s: Seq<char>)
    ensures
        decode_spec(encode_spec(s)) == Ok::<Seq<char>, DecodeError>(s),
    decreases s.len(),
{
    if s.len() == 0 {
        assert(s =~= Seq::empty());
    } else {
        lemma_encode_front(s);
        lemma_decode_encoded_char(s[0], encode_spec(s.drop_first()));
        lemma_decode_encode(s.drop_first());
        assert(seq![s[0]] + s.drop_first() =~= s);
    }
}

/// Whether `%` followed by `c` is the escape that encoding writes for some character.
pub open spec fn is_upcode(c: char) -> bool {
    c == '%' || c == 'z' || 64 <= (c as u32) < 96
}

/// Whether the text is escaped the way encoding escapes: no special character
/// stands for itself, and every `%` is followed by the upcode of a special
/// character.
pub open spec fn is_encoded(e: Seq<char>) -> bool
    decreases e.len(),
{
    if e.len() == 0 {
        true
    } else if e[0] == '%' {
        e.len() >= 2 && is_upcode(e[1]) && is_encoded(e.skip(2))
    } else {
        !is_special(e[0]) && is_encoded(e.drop_first())
    }
}

/// Every encoding is escaped the way `is_encoded` asks.
pub proof fn lemma_encode_is_encoded(s: Seq<char>)
    ensures
        is_encoded(encode_spec(s)),
    decreases s.len(),
{
    if s.len() > 0 {
        lemma_encode_front(s);
        lemma_encode_is_encoded(s.drop_first());
        let rest = encode_spec(s.drop_first());
        let whole = encode_char(s[0]) + rest;
        if is_special(s[0]) {
            assert(whole[0] == '%');
            assert(whole[1] == upencode_spec(s[0]));
            assert(whole.skip(2) =~= rest);
            let code = s[0] as u32;
            if s[0] != '%' {
                assert(((code + 64) as char) as u32 == code + 64);
            }
        } else {
            assert(whole[0] == s[0]);
            assert(whole.drop_first() =~= rest);
        }
    }
}

/// An upcode stands for a special character, whose upcode it is.
proof fn lemma_upcode_names_special(x: char)
    requires
        is_upcode(x),
    ensures
        updecode_spec(x) is Ok,
        is_special(updecode_spec(x)->Ok_0),
        upencode_spec(updecode_spec(x)->Ok_0) == x,
{
    if x != '%' {
        let code = x as u32;
        assert(((code - 64) as char) as u32 == code - 64);
        assert(((code - 64 + 64) as char) == x);
    }
}

/// Encoding undoes decoding, for every text that is escaped the way encoding
/// escapes.
pub proof fn lemma_encode_decode(e: Seq<char>)
    requires
        is_encoded(e),
    ensures
        decode_spec(e) is Ok,
        encode_spec(decode_spec(e)->Ok_0) == e,
    decreases e.len(),
{
    if e.len() == 0 {
        assert(e =~= Seq::empty());
    } else if e[0] == '%' {
        assert(e.len() >= 2 && is_upcode(e[1]));
        let rest = e.skip(2);
        lemma_encode_decode(rest);
        let c = updecode_spec(e[1])->Ok_0;
        let tail = decode_spec(rest)->Ok_0;
        let d = seq![c] + tail;
        assert(decode_spec(e) == Ok::<Seq<char>, DecodeError>(d));
        lemma_encode_front(d);
        assert(d.drop_first() =~= tail);
        lemma_upcode_names_special(e[1]);
        assert(encode_char(c) + rest =~= e);
    } else {
        let rest = e.drop_first();
        lemma_encode_decode(rest);
        let tail = decode_spec(rest)->Ok_0;
        let d = seq![e[0]] + tail;
        lemma_encode_front(d);
        assert(d.drop_first() =~= tail);
        assert(encode_char(e[0]) + rest =~= e);
    }
}

} // verus!
