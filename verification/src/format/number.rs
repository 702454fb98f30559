//! Decimal numbers as they stand in a frame.

use vstd::prelude::*;

verus! {

/// Whether `c` is a decimal digit.
pub open spec fn is_digit(c: char) -> bool {
    '0' <= c <= '9'
}

/// Whether the text is made of decimal digits only.
pub open spec fn all_digits(s: Seq<char>) -> bool {
    forall|i: int| 0 <= i < s.len() ==> is_digit(#[trigger] s[i])
}

/// The number that a text of decimal digits is the notation of.
pub open spec fn digits_value(s: Seq<char>) -> nat
    decreases s.len(),
{
    if s.len() == 0 {
        0
    } else {
        digits_value(s.drop_last()) * 10 + ((s.last() as u32) - ('0' as u32)) as nat
    }
}

/// The digits of a text that may start with a `+` sign.
pub open spec fn unsigned_body(s: Seq<char>) -> Seq<char> {
    if s.len() > 0 && s[0] == '+' {
        s.drop_first()
    } else {
        s
    }
}

/// The number that a text denotes, where it denotes one that is at most
/// `max`: an optional `+`, then one or more decimal digits.
pub open spec fn number_of(s: Seq<char>, max: nat) -> Option<nat> {
    let body = unsigned_body(s);
    if body.len() > 0 && all_digits(body) && digits_value(body) <= max {
        Some(digits_value(body))
    } else {
        None
    }
}

/// The digit that stands for `d`.
pub open spec fn digit_char(d: nat) -> char
    recommends
        d < 10,
{
    (d + 48) as char
}

/// The decimal notation of `n`, without sign and without leading zeros.
pub open spec fn decimal(n: nat) -> Seq<char>
    decreases n,
{
    if n < 10 {
        seq![digit_char(n)]
    } else {
        decimal(n / 10).push(digit_char(n % 10))
    }
}

/// A text of digits denotes at least what any of its prefixes denotes.
pub proof fn lemma_digits_value_grows(s: Seq<char>, n: int)
    requires
        0 <= n <= s.len(),
    ensures
        digits_value(s.take(n)) <= digits_value(s),
    decreases s.len() - n,
{
    if n == s.len() {
        assert(s.take(n) == s);
    } else {
        lemma_digits_value_grows(s.drop_last(), n);
        assert(s.drop_last().take(n) == s.take(n));
    }
}

/// Read a number that is at most `max`.
pub fn parse_number(text: &str, max: u64) -> (r: Option<u64>)
    ensures
        r matches Some(n) ==> number_of(text@, max as nat) == Some(n as nat),
        r is None ==> number_of(text@, max as nat) is None,
{
    let mut value: u64 = 0;
    let mut seen = false;
    let mut signed = false;
    let mut start = true;
    let chars = text.chars();
    for ch in it: chars
        invariant
            it.seq() == text@,
            start == (it.index() == 0),
            signed ==> it.index() > 0 && text@[0] == '+',
            !signed && it.index() > 0 ==> text@[0] != '+',
            all_digits(unsigned_body(text@.take(it.index()))),
            seen == (unsigned_body(text@.take(it.index())).len() > 0),
            value == digits_value(unsigned_body(text@.take(it.index()))),
            value <= max,
    {
        let ghost before = unsigned_body(text@.take(it.index()));
        let ghost after = unsigned_body(text@.take(it.index() + 1));
        let ghost whole = unsigned_body(text@);
        if start && ch == '+' {
            signed = true;
            start = false;
            proof {
                assert(after =~= Seq::empty());
            }
        } else {
            start = false;
            proof {
                assert(after =~= before.push(ch));
                assert(after.drop_last() =~= before);
                if text@[0] == '+' {
                    assert(whole.take(it.index()) =~= after);
                    assert(whole[it.index() - 1] == ch);
                } else {
                    assert(whole.take(it.index() + 1) =~= after);
                    assert(whole[it.index()] == ch);
                }
            }
            if !('0' <= ch && ch <= '9') {
                return None;
            }
            let d: u64 = ((ch as u8) - 48) as u64;
            proof {
                if all_digits(whole) {
                    if text@[0] == '+' {
                        lemma_digits_value_grows(whole, it.index());
                    } else {
                        lemma_digits_value_grows(whole, it.index() + 1);
                    }
                }
            }
            if value > max / 10 {
                return None;
            }
            let tens: u64 = value * 10;
            if d > max - tens {
                return None;
            }
            value = tens + d;
            seen = true;
            proof {
                assert forall|i: int| 0 <= i < after.len() implies is_digit(#[trigger] after[i]) by {
                    if i < before.len() {
                        assert(after[i] == before[i]);
                    }
                }
            }
        }
    }
    proof {
        assert(text@.take(text@.len() as int) == text@);
    }
    if seen {
        Some(value)
    } else {
        None
    }
}

/// Append the decimal notation of `n` to `out`.
pub fn push_decimal(out: &mut String, n: u64)
    ensures
        final(out)@ == old(out)@ + decimal(n as nat),
    decreases n,
{
    if n >= 10 {
        push_decimal(out, n / 10);
    }
    let d: u8 = (n % 10) as u8;
    out.push((d + 48) as char);
    proof {
        if n >= 10 {
            assert(final(out)@ =~= old(out)@ + decimal(n as nat));
        } else {
            assert(final(out)@ =~= old(out)@ + decimal(n as nat));
        }
    }
}

/// The decimal notation of a number is read back as that number.
pub proof fn lemma_number_of_decimal(n: nat, max: nat)
    requires
        n <= max,
    ensures
        number_of(decimal(n), max) == Some(n),
{
    lemma_decimal_digits(n);
    let s = decimal(n);
    assert(is_digit(s[0]));
}

/// The decimal notation of a number is made of digits, one or more, and
/// denotes the number.
pub proof fn lemma_decimal_digits(n: nat)
    ensures
        decimal(n).len() > 0,
        all_digits(decimal(n)),
        digits_value(decimal(n)) == n,
    decreases n,
{
    let s = decimal(n);
    if n < 10 {
        assert(s.drop_last() =~= Seq::empty());
        assert(digits_value(s.drop_last()) == 0);
        assert(s.last() == digit_char(n));
        assert((digit_char(n) as u32) == n + 48);
    } else {
        lemma_decimal_digits(n / 10);
        assert(s.drop_last() =~= decimal(n / 10));
        assert(s.last() == digit_char(n % 10));
        assert((digit_char(n % 10) as u32) == n % 10 + 48);
        assert forall|i: int| 0 <= i < s.len() implies is_digit(#[trigger] s[i]) by {
            if i < s.len() - 1 {
                assert(s[i] == decimal(n / 10)[i]);
            }
        }
    }
}

} // verus!
