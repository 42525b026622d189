//! Hexadecimal parsing and formatting of unsigned 64-bit values, exactly
//! as the agent's inputs use them: a sysfs memory-block size and the
//! signal-catch mask of a process status record.
//!
//! A parse accepts one optional leading `+`, then one or more hexadecimal
//! digits of either case, and fails on anything else or on a value that
//! does not fit in 64 bits.

use vstd::prelude::*;
use crate::text::chars_of;

verus! {

/// A hexadecimal digit of either case.
pub open spec fn is_hex_digit(c: char) -> bool {
    ('0' <= c && c <= '9') || ('a' <= c && c <= 'f') || ('A' <= c && c <= 'F')
}

/// The numeric value of a hexadecimal digit.
pub open spec fn hex_digit_value(c: char) -> int {
    if '0' <= c && c <= '9' {
        c as int - '0' as int
    } else if 'a' <= c && c <= 'f' {
        c as int - 'a' as int + 10
    } else if 'A' <= c && c <= 'F' {
        c as int - 'A' as int + 10
    } else {
        0
    }
}

/// Whether `s` is one or more hexadecimal digits.
pub open spec fn all_hex_digits(s: Seq<char>) -> bool {
    s.len() > 0 && forall|i: int| 0 <= i < s.len() ==> is_hex_digit(s[i])
}

/// The unbounded value of a digit string, most significant digit first.
pub open spec fn hex_value(s: Seq<char>) -> int
    decreases s.len(),
{
    if s.len() == 0 {
        0
    } else {
        hex_value(s.drop_last()) * 16 + hex_digit_value(s.last())
    }
}

/// Strip one leading `+` sign, if present.
pub open spec fn strip_plus(s: Seq<char>) -> Seq<char> {
    if s.len() > 0 && s[0] == '+' {
        s.drop_first()
    } else {
        s
    }
}

/// What parsing `s` as a hexadecimal 64-bit value yields.
pub open spec fn parse_hex_spec(s: Seq<char>) -> Option<u64> {
    let d = strip_plus(s);
    if all_hex_digits(d) && hex_value(d) <= u64::MAX {
        Some(hex_value(d) as u64)
    } else {
        None
    }
}

proof fn lemma_hex_value_nonneg(s: Seq<char>)
    ensures
        hex_value(s) >= 0,
    decreases s.len(),
{
    if s.len() > 0 {
        lemma_hex_value_nonneg(s.drop_last());
    }
}

fn hex_digit_of(c: char) -> (r: Option<u64>)
    ensures
        r is Some <==> is_hex_digit(c),
        r is Some ==> r->0 == hex_digit_value(c) && r->0 < 16,
{
    if '0' <= c && c <= '9' {
        Some((c as u32 - '0' as u32) as u64)
    } else if 'a' <= c && c <= 'f' {
        Some((c as u32 - 'a' as u32 + 10) as u64)
    } else if 'A' <= c && c <= 'F' {
        Some((c as u32 - 'A' as u32 + 10) as u64)
    } else {
        None
    }
}

/// Parse the characters `v[lo..hi]` as a hexadecimal 64-bit value.
pub fn parse_hex_range(v: &Vec<char>, lo: usize, hi: usize) -> (r: Option<u64>)
    requires
        lo <= hi <= v@.len(),
    ensures
        r == parse_hex_spec(v@.subrange(lo as int, hi as int)),
{
    let ghost s = v@.subrange(lo as int, hi as int);
    let start: usize = if hi > lo && v[lo] == '+' {
        lo + 1
    } else {
        lo
    };
    let ghost d = strip_plus(s);
    proof {
        assert(d =~= v@.subrange(start as int, hi as int));
    }
    if start == hi {
        // no digits at all
        return None;
    }
    let mut acc: u64 = 0;
    let mut bad = false;
    let mut over = false;
    let mut i: usize = start;
    while i < hi
        invariant
            start <= i <= hi <= v@.len(),
            start < hi,
            d == v@.subrange(start as int, hi as int),
            bad <==> !(forall|k: int| 0 <= k < i - start ==> is_hex_digit(d[k])),
            !bad ==> (over <==> hex_value(d.take(i - start)) > u64::MAX),
            !bad && !over ==> acc == hex_value(d.take(i - start)),
        decreases hi - i,
    {
        let ghost k = i - start;
        proof {
            assert(d.take(k + 1).drop_last() =~= d.take(k));
            assert(d.take(k + 1).last() == d[k]);
            assert(d[k] == v@[i as int]);
            lemma_hex_value_nonneg(d.take(k));
        }
        match hex_digit_of(v[i]) {
            None => {
                bad = true;
            }
            Some(dv) => {
                if !bad && !over {
                    if acc >= 0x1000_0000_0000_0000 {
                        over = true;
                        proof {
                            assert(hex_value(d.take(k + 1)) == hex_value(d.take(k)) * 16
                                + hex_digit_value(d[k]));
                        }
                    } else {
                        acc = acc * 16 + dv;
                    }
                } else if !bad {
                    // already past 64 bits; the value only grows
                    proof {
                        assert(hex_value(d.take(k + 1)) == hex_value(d.take(k)) * 16
                            + hex_digit_value(d[k]));
                        assert(hex_value(d.take(k)) * 16 >= hex_value(d.take(k)));
                    }
                }
            }
        }
        i += 1;
    }
    proof {
        assert(d.take(hi - start) =~= d);
    }
    if bad || over {
        None
    } else {
        Some(acc)
    }
}

/// Parse a whole string as a hexadecimal 64-bit value.
pub fn parse_hex_u64(s: &str) -> (r: Option<u64>)
    ensures
        r == parse_hex_spec(s@),
{
    let v = chars_of(s);
    proof {
        assert(v@.subrange(0, v@.len() as int) =~= s@);
    }
    parse_hex_range(&v, 0, v.len())
}

} // verus!
