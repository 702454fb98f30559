//! Ids of the messages that the application sends.

use vstd::prelude::*;

verus! {

/// Whether `c` is an ASCII letter or digit.
pub open spec fn is_alphanumeric(c: char) -> bool {
    ('a' <= c <= 'z') || ('A' <= c <= 'Z') || ('0' <= c <= '9')
}

/// Whether the text is a message id as [`id`] makes them: the name of this
/// product, a dot, and twelve letters or digits.
pub open spec fn is_id(id: Seq<char>) -> bool {
    &&& id.len() == 20
    &&& id.take(8) == "yengine."@
    &&& forall|i: int| 8 <= i < 20 ==> is_alphanumeric(#[trigger] id[i])
}

/// Calls `fastrand::alphanumeric`, which draws a character from the ranges
/// a-z, A-Z and 0-9 with the generator of the thread. Which character comes
/// is left open.
#[verifier::external_body]
fn alphanumeric() -> (c: char)
    ensures
        is_alphanumeric(c),
{
    fastrand::alphanumeric()
}

/// The message id with the given token: the name of this product, a dot, and
/// the token.
pub fn id_of(token: &str) -> (id: String)
    ensures
        id@ == "yengine."@ + token@,
{
    let mut id = "yengine.".to_owned();
    id.append(token);
    id
}

/// A new message id, with a token of twelve random letters and digits.
pub fn id() -> (id: String)
    ensures
        is_id(id@),
{
    let mut token = String::new();
    let mut i: usize = 0;
    while i < 12
        invariant
            i <= 12,
            token@.len() == i,
            forall|j: int| 0 <= j < i ==> is_alphanumeric(#[trigger] token@[j]),
        decreases 12 - i,
    {
        token.push(alphanumeric());
        i += 1;
    }
    let id = id_of(token.as_str());
    proof {
        reveal_strlit("yengine.");
        assert(id@.take(8) =~= "yengine."@);
        assert forall|i: int| 8 <= i < 20 implies is_alphanumeric(#[trigger] id@[i]) by {
            assert(id@[i] == token@[i - 8]);
        }
    }
    id
}

} // verus!
