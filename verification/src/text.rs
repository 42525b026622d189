//! Plain text helpers: turning a string into its characters and locating
//! the whitespace-trimmed region, so that parsers can work over indexed
//! character vectors.

use vstd::prelude::*;

verus! {

broadcast use vstd::string::axiom_spec_iter;

/// ASCII whitespace, the only kind the agent's text inputs carry.
pub open spec fn is_space(c: char) -> bool {
    c == ' ' || c == '\t' || c == '\n' || c == '\r'
}

fn is_space_char(c: char) -> (b: bool)
    ensures
        b == is_space(c),
{
    c == ' ' || c == '\t' || c == '\n' || c == '\r'
}

/// The characters of a string, in order.
pub fn chars_of(s: &str) -> (v: Vec<char>)
    ensures
        v@ == s@,
{
    let mut v: Vec<char> = Vec::new();
    for c in it: s.chars()
        invariant
            it.seq() == s@,
            v@ == s@.take(it.index()),
    {
        v.push(c);
    }
    proof {
        assert(v@ =~= s@);
    }
    v
}

/// Compare two strings character by character.
pub fn str_eq(a: &str, b: &str) -> (r: bool)
    ensures
        r == (a@ == b@),
{
    let va = chars_of(a);
    let vb = chars_of(b);
    if va.len() != vb.len() {
        return false;
    }
    let mut i: usize = 0;
    while i < va.len()
        invariant
            0 <= i <= va@.len(),
            va@.len() == vb@.len(),
            va@ == a@,
            vb@ == b@,
            forall|k: int| 0 <= k < i ==> va@[k] == vb@[k],
        decreases va@.len() - i,
    {
        if va[i] != vb[i] {
            return false;
        }
        i += 1;
    }
    proof {
        assert(a@ =~= b@);
    }
    true
}

/// The first index at or after `i` holding a non-space character, or the
/// length of `s` when only spaces remain.
pub open spec fn ltrim_idx(s: Seq<char>, i: int) -> int
    decreases s.len() - i,
{
    if 0 <= i < s.len() && is_space(s[i]) {
        ltrim_idx(s, i + 1)
    } else {
        i
    }
}

/// One past the last non-space character strictly before `j`, or zero when
/// only spaces precede `j`.
pub open spec fn rtrim_idx(s: Seq<char>, j: int) -> int
    decreases j,
{
    if 0 < j <= s.len() && is_space(s[j - 1]) {
        rtrim_idx(s, j - 1)
    } else {
        j
    }
}

/// The whitespace-trimmed region of `s`.
pub open spec fn trimmed(s: Seq<char>) -> Seq<char> {
    let lo = ltrim_idx(s, 0);
    let hi = rtrim_idx(s, s.len() as int);
    if lo <= hi {
        s.subrange(lo, hi)
    } else {
        Seq::empty()
    }
}

proof fn lemma_ltrim_bounds(s: Seq<char>, i: int)
    requires
        0 <= i <= s.len(),
    ensures
        i <= ltrim_idx(s, i) <= s.len(),
        forall|k: int| i <= k < ltrim_idx(s, i) ==> is_space(s[k]),
        ltrim_idx(s, i) < s.len() ==> !is_space(s[ltrim_idx(s, i)]),
    decreases s.len() - i,
{
    if i < s.len() && is_space(s[i]) {
        lemma_ltrim_bounds(s, i + 1);
    }
}

proof fn lemma_rtrim_bounds(s: Seq<char>, j: int)
    requires
        0 <= j <= s.len(),
    ensures
        0 <= rtrim_idx(s, j) <= j,
        forall|k: int| rtrim_idx(s, j) <= k < j ==> is_space(s[k]),
        rtrim_idx(s, j) > 0 ==> !is_space(s[rtrim_idx(s, j) - 1]),
    decreases j,
{
    if 0 < j && is_space(s[j - 1]) {
        lemma_rtrim_bounds(s, j - 1);
    }
}

/// Locate the whitespace-trimmed region of `v` as a pair of indices.
pub fn trim_bounds(v: &Vec<char>) -> (r: (usize, usize))
    ensures
        0 <= r.0 <= r.1 <= v@.len(),
        v@.subrange(r.0 as int, r.1 as int) == trimmed(v@),
{
    proof {
        lemma_ltrim_bounds(v@, 0);
        lemma_rtrim_bounds(v@, v@.len() as int);
    }
    let mut lo: usize = 0;
    while lo < v.len() && is_space_char(v[lo])
        invariant
            0 <= lo <= v@.len(),
            ltrim_idx(v@, 0) == ltrim_idx(v@, lo as int),
            forall|k: int| 0 <= k < lo ==> is_space(v@[k]),
        decreases v@.len() - lo,
    {
        lo += 1;
    }
    assert(ltrim_idx(v@, lo as int) == lo as int);
    let mut hi: usize = v.len();
    while hi > 0 && is_space_char(v[hi - 1])
        invariant
            0 <= hi <= v@.len(),
            rtrim_idx(v@, v@.len() as int) == rtrim_idx(v@, hi as int),
            forall|k: int| hi <= k < v@.len() ==> is_space(v@[k]),
        decreases hi,
    {
        hi -= 1;
    }
    assert(rtrim_idx(v@, hi as int) == hi as int);
    if lo <= hi {
        proof {
            assert(v@.subrange(lo as int, hi as int) =~= trimmed(v@));
        }
        (lo, hi)
    } else {
        proof {
            assert(v@.subrange(lo as int, lo as int) =~= trimmed(v@));
        }
        (lo, lo)
    }
}

} // verus!
