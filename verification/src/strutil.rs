//! Small verified helpers over `&str`: equality and locating the first colon.

use vstd::prelude::*;

verus! {

/// Character-wise string equality.
pub fn str_eq(a: &str, b: &str) -> (r: bool)
    ensures
        r <==> a@ == b@,
{
    let na = a.unicode_len();
    let nb = b.unicode_len();
    if na != nb {
        return false;
    }
    let mut i: usize = 0;
    while i < na
        invariant
            na == a@.len(),
            na == b@.len(),
            i <= na,
            forall|k: int| 0 <= k < i ==> a@[k] == b@[k],
        decreases na - i,
    {
        if a.get_char(i) != b.get_char(i) {
            return false;
        }
        i = i + 1;
    }
    proof {
        assert(a@ =~= b@);
    }
    true
}

/// The position of the first `:` in a string, if any.
///
/// At spec level the same position, written recursively.
pub open spec fn first_colon(s: Seq<char>) -> int
    decreases s.len(),
{
    if s.len() == 0 {
        0
    } else if s[0] == ':' {
        0
    } else {
        1 + first_colon(s.skip(1))
    }
}

/// A position with a colon and none before it is `first_colon`.
pub proof fn lemma_first_colon_at(s: Seq<char>, i: int)
    requires
        0 <= i < s.len(),
        s[i] == ':',
        forall|k: int| 0 <= k < i ==> s[k] != ':',
    ensures
        first_colon(s) == i,
    decreases s.len(),
{
    if i > 0 {
        assert forall|k: int| 0 <= k < i - 1 implies s.skip(1)[k] != ':' by {
            assert(s[k + 1] != ':');
        }
        assert(s.skip(1)[i - 1] == ':');
        lemma_first_colon_at(s.skip(1), i - 1);
    }
}

/// When no position holds a colon, `first_colon` is the length.
pub proof fn lemma_first_colon_none(s: Seq<char>)
    requires
        forall|k: int| 0 <= k < s.len() ==> s[k] != ':',
    ensures
        first_colon(s) == s.len(),
    decreases s.len(),
{
    if s.len() > 0 {
        assert forall|k: int| 0 <= k < s.skip(1).len() implies s.skip(1)[k] != ':' by {
            assert(s[k + 1] != ':');
        }
        lemma_first_colon_none(s.skip(1));
    }
}

/// What stands left of the first colon.
pub open spec fn left_of_colon(s: Seq<char>) -> Seq<char> {
    s.take(first_colon(s))
}

/// What stands right of the first colon.
pub open spec fn right_of_colon(s: Seq<char>) -> Seq<char> {
    s.skip(first_colon(s) + 1)
}

/// Finds the first colon of a string, scanning left to right.
pub fn find_colon(s: &str) -> (r: Option<usize>)
    ensures
        r matches Some(i) ==> i == first_colon(s@) && i < s@.len(),
        r is None ==> first_colon(s@) == s@.len(),
{
    let n = s.unicode_len();
    let mut i: usize = 0;
    while i < n
        invariant
            n == s@.len(),
            i <= n,
            forall|k: int| 0 <= k < i ==> s@[k] != ':',
        decreases n - i,
    {
        if s.get_char(i) == ':' {
            proof {
                lemma_first_colon_at(s@, i as int);
            }
            return Some(i);
        }
        i = i + 1;
    }
    proof {
        lemma_first_colon_none(s@);
    }
    None
}

} // verus!
