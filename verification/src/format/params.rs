//! The parameters of a message: a map from keys to values that is kept, and
//! written to the wire, in the order of its keys.

use super::text::same;
use vstd::prelude::*;
use vstd::std_specs::iter::IteratorSpec;

verus! {

/// Whether `a` comes before `b` in the order of texts: the order of their
/// first differing characters, a proper prefix coming first.
pub open spec fn text_lt(a: Seq<char>, b: Seq<char>) -> bool
    decreases a.len(),
{
    if b.len() == 0 {
        false
    } else if a.len() == 0 {
        true
    } else if a[0] != b[0] {
        (a[0] as u32) < (b[0] as u32)
    } else {
        text_lt(a.drop_first(), b.drop_first())
    }
}

/// No text comes before itself.
pub proof fn lemma_text_lt_irreflexive(a: Seq<char>)
    ensures
        !text_lt(a, a),
    decreases a.len(),
{
    if a.len() > 0 {
        lemma_text_lt_irreflexive(a.drop_first());
    }
}

/// Of two different texts one comes before the other.
pub proof fn lemma_text_lt_total(a: Seq<char>, b: Seq<char>)
    ensures
        text_lt(a, b) || text_lt(b, a) || a == b,
    decreases a.len(),
{
    if a.len() == 0 || b.len() == 0 {
        if a.len() == 0 && b.len() == 0 {
            assert(a =~= b);
        }
    } else if a[0] == b[0] {
        lemma_text_lt_total(a.drop_first(), b.drop_first());
        if a.drop_first() == b.drop_first() {
            assert(a =~= seq![a[0]] + a.drop_first());
            assert(b =~= seq![b[0]] + b.drop_first());
        }
    } else {
        lemma_chars_differ(a[0], b[0]);
    }
}

/// Different characters have different codes.
proof fn lemma_chars_differ(x: char, y: char)
    requires
        x != y,
    ensures
        (x as u32) != (y as u32),
{
    assert((x as u32) as char == x);
    assert((y as u32) as char == y);
}

/// The order of texts is transitive.
pub proof fn lemma_text_lt_transitive(a: Seq<char>, b: Seq<char>, c: Seq<char>)
    requires
        text_lt(a, b),
        text_lt(b, c),
    ensures
        text_lt(a, c),
    decreases a.len(),
{
    if a.len() > 0 && a[0] == b[0] && b[0] == c[0] {
        lemma_text_lt_transitive(a.drop_first(), b.drop_first(), c.drop_first());
    }
}

/// Whether `a` comes before `b` in the order of texts.
pub fn precedes(a: &str, b: &str) -> (r: bool)
    ensures
        r == text_lt(a@, b@),
{
    let mut left = a.chars();
    let mut right = b.chars();
    loop
        invariant
            left.obeys_prophetic_iter_laws(),
            right.obeys_prophetic_iter_laws(),
            right.decrease() is Some,
            text_lt(a@, b@) == text_lt(left.remaining(), right.remaining()),
        decreases right.decrease()->0,
    {
        let y = right.next();
        let x = left.next();
        match y {
            None => {
                return false;
            },
            Some(q) => match x {
                None => {
                    return true;
                },
                Some(p) => {
                    if p != q {
                        return (p as u32) < (q as u32);
                    }
                },
            },
        }
    }
}

/// The keys and values that a sequence of entries holds.
pub open spec fn pairs(entries: Seq<(String, String)>) -> Seq<(Seq<char>, Seq<char>)> {
    Seq::new(entries.len(), |i: int| (entries[i].0@, entries[i].1@))
}

/// Whether the keys of the entries strictly ascend.
pub open spec fn ascending(entries: Seq<(Seq<char>, Seq<char>)>) -> bool {
    forall|i: int, j: int| 0 <= i < j < entries.len() ==> text_lt(#[trigger] entries[i].0, #[trigger] entries[j].0)
}

/// The number of entries at the front whose keys come before `key`.
pub open spec fn rank(entries: Seq<(Seq<char>, Seq<char>)>, key: Seq<char>) -> int
    decreases entries.len(),
{
    if entries.len() == 0 || !text_lt(entries[0].0, key) {
        0
    } else {
        1 + rank(entries.drop_first(), key)
    }
}

/// The entries after `key` was given `value`: the entry of that key is
/// replaced where there is one, else a new entry takes the place that the
/// order of keys gives it.
pub open spec fn put(entries: Seq<(Seq<char>, Seq<char>)>, key: Seq<char>, value: Seq<char>) -> Seq<
    (Seq<char>, Seq<char>),
> {
    let at = rank(entries, key);
    if at < entries.len() && entries[at].0 == key {
        entries.update(at, (key, value))
    } else {
        entries.insert(at, (key, value))
    }
}

/// The value of `key` among the entries, if it has one.
pub open spec fn lookup(entries: Seq<(Seq<char>, Seq<char>)>, key: Seq<char>) -> Option<Seq<char>> {
    let at = rank(entries, key);
    if at < entries.len() && entries[at].0 == key {
        Some(entries[at].1)
    } else {
        None
    }
}

/// The rank of a key is the index of the first entry that does not come before it.
pub proof fn lemma_rank_is(entries: Seq<(Seq<char>, Seq<char>)>, key: Seq<char>, at: int)
    requires
        0 <= at <= entries.len(),
        forall|j: int| 0 <= j < at ==> text_lt(#[trigger] entries[j].0, key),
        at < entries.len() ==> !text_lt(entries[at].0, key),
    ensures
        rank(entries, key) == at,
    decreases at,
{
    if at > 0 {
        let rest = entries.drop_first();
        assert(text_lt(entries[0].0, key));
        assert forall|j: int| 0 <= j < at - 1 implies text_lt(#[trigger] rest[j].0, key) by {
            assert(rest[j] == entries[j + 1]);
        }
        lemma_rank_is(rest, key, at - 1);
    }
}

/// The rank of a key lies within the entries, the entries before it come
/// before the key and the entry at it does not.
pub proof fn lemma_rank_bounds(entries: Seq<(Seq<char>, Seq<char>)>, key: Seq<char>)
    ensures
        0 <= rank(entries, key) <= entries.len(),
        forall|j: int| 0 <= j < rank(entries, key) ==> text_lt(#[trigger] entries[j].0, key),
        rank(entries, key) < entries.len() ==> !text_lt(entries[rank(entries, key)].0, key),
    decreases entries.len(),
{
    if entries.len() > 0 && text_lt(entries[0].0, key) {
        let rest = entries.drop_first();
        lemma_rank_bounds(rest, key);
        assert forall|j: int| 0 <= j < rank(entries, key) implies text_lt(#[trigger] entries[j].0, key) by {
            if j > 0 {
                assert(entries[j] == rest[j - 1]);
            }
        }
        if rank(entries, key) < entries.len() {
            assert(entries[rank(entries, key)] == rest[rank(rest, key)]);
        }
    }
}

/// Giving a key a value keeps the keys in strictly ascending order.
pub proof fn lemma_put_ascending(entries: Seq<(Seq<char>, Seq<char>)>, key: Seq<char>, value: Seq<char>)
    requires
        ascending(entries),
    ensures
        ascending(put(entries, key, value)),
{
    lemma_rank_bounds(entries, key);
    let at = rank(entries, key);
    let after = put(entries, key, value);
    if at < entries.len() && entries[at].0 == key {
        assert forall|i: int, j: int| 0 <= i < j < after.len() implies text_lt(
            #[trigger] after[i].0,
            #[trigger] after[j].0,
        ) by {
            assert(after[i].0 == entries[i].0);
            assert(after[j].0 == entries[j].0);
        }
    } else {
        assert forall|i: int, j: int| 0 <= i < j < after.len() implies text_lt(
            #[trigger] after[i].0,
            #[trigger] after[j].0,
        ) by {
            if j < at {
                assert(after[i] == entries[i] && after[j] == entries[j]);
            } else if j == at {
                assert(after[i] == entries[i]);
            } else {
                assert(after[j] == entries[j - 1]);
                lemma_text_lt_total(entries[at].0, key);
                if j - 1 > at {
                    assert(text_lt(entries[at].0, entries[j - 1].0));
                    lemma_text_lt_transitive(key, entries[at].0, entries[j - 1].0);
                }
                if i < at {
                    assert(after[i] == entries[i]);
                    lemma_text_lt_transitive(entries[i].0, key, entries[j - 1].0);
                } else if i > at {
                    assert(after[i] == entries[i - 1]);
                }
            }
        }
    }
}

/// A key has the value that it was given last.
pub proof fn lemma_lookup_put_same(entries: Seq<(Seq<char>, Seq<char>)>, key: Seq<char>, value: Seq<char>)
    ensures
        lookup(put(entries, key, value), key) == Some(value),
{
    lemma_rank_bounds(entries, key);
    lemma_text_lt_irreflexive(key);
    let at = rank(entries, key);
    let after = put(entries, key, value);
    assert forall|j: int| 0 <= j < at implies text_lt(#[trigger] after[j].0, key) by {
        assert(after[j] == entries[j]);
    }
    lemma_rank_is(after, key, at);
}

/// Giving a key a value leaves the values of the other keys as they were.
pub proof fn lemma_lookup_put_other(
    entries: Seq<(Seq<char>, Seq<char>)>,
    key: Seq<char>,
    value: Seq<char>,
    other: Seq<char>,
)
    requires
        ascending(entries),
        other != key,
    ensures
        lookup(put(entries, key, value), other) == lookup(entries, other),
{
    lemma_rank_bounds(entries, key);
    lemma_rank_bounds(entries, other);
    lemma_text_lt_total(key, other);
    lemma_text_lt_irreflexive(key);
    lemma_text_lt_irreflexive(other);
    let a = rank(entries, key);
    let b = rank(entries, other);
    let after = put(entries, key, value);
    if a < entries.len() && entries[a].0 == key {
        assert forall|j: int| 0 <= j < b implies text_lt(#[trigger] after[j].0, other) by {
            assert(after[j].0 == entries[j].0);
        }
        if b < entries.len() {
            assert(after[b].0 == entries[b].0);
        }
        lemma_rank_is(after, other, b);
    } else if text_lt(other, key) {
        if a < b {
            lemma_text_lt_total(entries[a].0, key);
            lemma_text_lt_transitive(key, entries[a].0, other);
            lemma_text_lt_transitive(key, other, key);
        }
        assert forall|j: int| 0 <= j < b implies text_lt(#[trigger] after[j].0, other) by {
            assert(after[j] == entries[j]);
        }
        if b < a {
            assert(after[b] == entries[b]);
        } else {
            assert(after[b].0 == key);
            if text_lt(key, other) {
                lemma_text_lt_transitive(key, other, key);
            }
            if b < entries.len() && entries[b].0 == other {
                assert(text_lt(entries[a].0, key));
            }
        }
        lemma_rank_is(after, other, b);
    } else {
        assert(text_lt(key, other));
        if b < a {
            lemma_text_lt_transitive(entries[b].0, key, other);
        }
        assert forall|j: int| 0 <= j < b + 1 implies text_lt(#[trigger] after[j].0, other) by {
            if j < a {
                assert(after[j] == entries[j]);
                lemma_text_lt_transitive(entries[j].0, key, other);
            } else if j > a {
                assert(after[j] == entries[j - 1]);
            }
        }
        if b < entries.len() {
            assert(after[b + 1] == entries[b]);
        }
        lemma_rank_is(after, other, b + 1);
    }
}

/// The parameters of a message.
#[derive(Debug)]
pub struct Params {
    entries: Vec<(String, String)>,
}

impl View for Params {
    type V = Seq<(Seq<char>, Seq<char>)>;

    closed spec fn view(&self) -> Seq<(Seq<char>, Seq<char>)> {
        pairs(self.entries@)
    }
}

impl Clone for Params {
    fn clone(&self) -> (copy: Params)
        ensures
            copy@ == self@,
    {
        proof {
            use_type_invariant(self);
        }
        let mut entries: Vec<(String, String)> = Vec::new();
        let mut i: usize = 0;
        while i < self.entries.len()
            invariant
                i <= self.entries.len(),
                entries.len() == i,
                pairs(entries@) == pairs(self.entries@).take(i as int),
            decreases self.entries.len() - i,
        {
            let key = self.entries[i].0.clone();
            let value = self.entries[i].1.clone();
            let ghost before = entries@;
            entries.push((key, value));
            proof {
                let goal = pairs(self.entries@).take(i as int + 1);
                assert forall|j: int| 0 <= j < i + 1 implies pairs(entries@)[j] == goal[j] by {
                    if j < i {
                        assert(pairs(before)[j] == pairs(self.entries@).take(i as int)[j]);
                    }
                }
                assert(pairs(entries@) =~= goal);
            }
            i += 1;
        }
        assert(pairs(self.entries@).take(self.entries@.len() as int) == pairs(self.entries@));
        Params { entries }
    }
}

impl Params {
    /// The keys strictly ascend.
    #[verifier::type_invariant]
    spec fn sorted(self) -> bool {
        ascending(pairs(self.entries@))
    }

    /// No parameters.
    pub fn new() -> (params: Params)
        ensures
            params@ == Seq::<(Seq<char>, Seq<char>)>::empty(),
    {
        let params = Params { entries: Vec::new() };
        assert(pairs(params.entries@) =~= Seq::empty());
        params
    }

    /// The number of parameters. Their keys strictly ascend, so no key occurs
    /// twice.
    pub fn len(&self) -> (n: usize)
        ensures
            n == self@.len(),
            ascending(self@),
    {
        proof {
            use_type_invariant(self);
        }
        self.entries.len()
    }

    /// The key of the parameter at `index`, counted in the order of keys.
    pub fn key(&self, index: usize) -> (key: &str)
        requires
            index < self@.len(),
        ensures
            key@ == self@[index as int].0,
    {
        self.entries[index].0.as_str()
    }

    /// The value of the parameter at `index`, counted in the order of keys.
    pub fn value(&self, index: usize) -> (value: &str)
        requires
            index < self@.len(),
        ensures
            value@ == self@[index as int].1,
    {
        self.entries[index].1.as_str()
    }

    /// The number of entries whose keys come before `key`.
    fn position(&self, key: &str) -> (at: usize)
        ensures
            at == rank(self@, key@),
            at <= self@.len(),
    {
        let mut at: usize = 0;
        while at < self.entries.len() && precedes(self.entries[at].0.as_str(), key)
            invariant
                at <= self.entries.len(),
                forall|j: int| 0 <= j < at ==> text_lt(#[trigger] self@[j].0, key@),
            decreases self.entries.len() - at,
        {
            at += 1;
        }
        proof {
            lemma_rank_is(self@, key@, at as int);
        }
        at
    }

    /// The value of `key`, if it has one.
    pub fn get(&self, key: &str) -> (value: Option<&str>)
        ensures
            match value {
                Some(text) => lookup(self@, key@) == Some(text@),
                None => lookup(self@, key@) is None,
            },
    {
        let at = self.position(key);
        if at < self.entries.len() && same(self.entries[at].0.as_str(), key) {
            Some(self.entries[at].1.as_str())
        } else {
            None
        }
    }

    /// Give `key` the value `value`, in place of the one it had, if any.
    pub fn insert(&mut self, key: String, value: String)
        ensures
            final(self)@ == put(old(self)@, key@, value@),
            ascending(final(self)@),
    {
        proof {
            use_type_invariant(&*self);
            lemma_put_ascending(self@, key@, value@);
        }
        let at = self.position(key.as_str());
        let ghost before = self@;
        let mut entries: Vec<(String, String)> = Vec::new();
        std::mem::swap(&mut self.entries, &mut entries);
        if at < entries.len() && same(entries[at].0.as_str(), key.as_str()) {
            entries.set(at, (key, value));
        } else {
            entries.insert(at, (key, value));
        }
        assert(pairs(entries@) =~= put(before, key@, value@));
        self.entries = entries;
    }
}

} // verus!
