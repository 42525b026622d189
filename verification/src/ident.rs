//! Container ID validation.
//!
//! An ID is accepted exactly when it has at least two characters, begins
//! with an ASCII letter or digit, and every later character is an ASCII
//! letter, digit, `.`, `-` or `_`.

use vstd::prelude::*;
use crate::errors::ErrorKind;

verus! {

broadcast use vstd::string::axiom_spec_iter;

/// A character that may begin a container ID: an ASCII letter or digit.
pub open spec fn id_head_char(c: char) -> bool {
    ('a' <= c && c <= 'z') || ('A' <= c && c <= 'Z') || ('0' <= c && c <= '9')
}

/// A character that may follow the first one: alphanumeric, `.`, `-` or `_`.
pub open spec fn id_tail_char(c: char) -> bool {
    id_head_char(c) || c == '.' || c == '-' || c == '_'
}

/// The container ID grammar: length at least two, a head character first,
/// tail characters after it.
pub open spec fn valid_id(s: Seq<char>) -> bool {
    &&& s.len() >= 2
    &&& id_head_char(s[0])
    &&& forall|i: int| 1 <= i < s.len() ==> id_tail_char(s[i])
}

/// The grammar restricted to the first `k` characters of `s`.
pub open spec fn id_prefix_ok(s: Seq<char>, k: int) -> bool {
    &&& k >= 1 ==> id_head_char(s[0])
    &&& forall|i: int| 1 <= i < k ==> id_tail_char(s[i])
}

fn is_head_char(c: char) -> (b: bool)
    ensures
        b == id_head_char(c),
{
    ('a' <= c && c <= 'z') || ('A' <= c && c <= 'Z') || ('0' <= c && c <= '9')
}

fn is_tail_char(c: char) -> (b: bool)
    ensures
        b == id_tail_char(c),
{
    is_head_char(c) || c == '.' || c == '-' || c == '_'
}

/// Validate a container ID against the ID grammar; every handler that is
/// handed an ID from outside calls this before touching the registry.
pub fn verify_cid(id: &str) -> (r: Result<(), ErrorKind>)
    ensures
        r is Ok <==> valid_id(id@),
        r is Err ==> r->Err_0 == ErrorKind::InvalidArgument,
{
    let mut good = true;
    let mut first = true;
    let mut saw_tail = false;
    for c in it: id.chars()
        invariant
            it.seq() == id@,
            first <==> it.index() == 0,
            saw_tail <==> it.index() >= 2,
            good <==> id_prefix_ok(id@, it.index()),
    {
        if first {
            good = good && is_head_char(c);
            first = false;
        } else {
            good = good && is_tail_char(c);
            saw_tail = true;
        }
    }
    if good && saw_tail {
        Ok(())
    } else {
        Err(ErrorKind::InvalidArgument)
    }
}

} // verus!
