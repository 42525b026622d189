//! Signal delivery decisions.
//!
//! Holds the parser for the signal-catch mask of a kernel-exposed process
//! status record, the SIGTERM-to-SIGKILL escalation rule for init
//! processes, and the freeze-bracketed signal-all broadcast whose
//! individual delivery failures never fail the call.

use vstd::prelude::*;
use crate::errors::ErrorKind;
use crate::hexnum::{parse_hex_spec, parse_hex_range};
use crate::text::chars_of;

verus! {

pub const SIGTERM: u32 = 15;

pub const SIGKILL: u32 = 9;

/// The bit that a signal occupies in a kernel signal mask.
pub fn sig_bit(signum: u32) -> (r: u64)
    requires
        1 <= signum <= 64,
    ensures
        r == 1u64 << ((signum - 1) as u64),
{
    1u64 << ((signum - 1) as u64)
}

/// Whether a line begins with the signal-catch mask tag `SigCgt:`.
pub open spec fn sigcgt_prefix(s: Seq<char>) -> bool {
    &&& s.len() >= 7
    &&& s[0] == 'S'
    &&& s[1] == 'i'
    &&& s[2] == 'g'
    &&& s[3] == 'C'
    &&& s[4] == 'g'
    &&& s[5] == 't'
    &&& s[6] == ':'
}

/// The mask carried by a `SigCgt:` line: the remainder of the line parsed
/// as hexadecimal, provided it holds no further separator.
pub open spec fn mask_of_line(s: Seq<char>) -> Option<u64> {
    if forall|i: int| 7 <= i < s.len() ==> s[i] != ':' {
        parse_hex_spec(s.subrange(7, s.len() as int))
    } else {
        None
    }
}

/// The signal-catch mask of a status record: the first `SigCgt:` line
/// decides, and a malformed one yields nothing.
pub open spec fn status_sigcgt(lines: Seq<Seq<char>>) -> Option<u64>
    decreases lines.len(),
{
    if lines.len() == 0 {
        None
    } else if sigcgt_prefix(lines[0]) {
        mask_of_line(lines[0])
    } else {
        status_sigcgt(lines.drop_first())
    }
}

/// Whether the status record shows a handler installed for `signum`; any
/// missing or malformed mask counts as not handled.
pub open spec fn signal_handled_spec(lines: Seq<Seq<char>>, signum: u32) -> bool {
    match status_sigcgt(lines) {
        Some(m) => m & (1u64 << ((signum - 1) as u64)) == 1u64 << ((signum - 1) as u64),
        None => false,
    }
}

fn line_mask(line: &String) -> (r: Option<u64>)
    ensures
        r == (if sigcgt_prefix(line@) { mask_of_line(line@) } else { None::<u64> }),
        r is Some ==> sigcgt_prefix(line@),
{
    let v = chars_of(line.as_str());
    if v.len() < 7 {
        return None;
    }
    if !(v[0] == 'S' && v[1] == 'i' && v[2] == 'g' && v[3] == 'C' && v[4] == 'g' && v[5] == 't'
        && v[6] == ':') {
        return None;
    }
    let mut i: usize = 7;
    while i < v.len()
        invariant
            7 <= i <= v@.len(),
            v@ == line@,
            sigcgt_prefix(line@),
            forall|k: int| 7 <= k < i ==> v@[k] != ':',
        decreases v@.len() - i,
    {
        if v[i] == ':' {
            proof {
                assert(line@[i as int] == ':');
            }
            return None;
        }
        i += 1;
    }
    parse_hex_range(&v, 7, v.len())
}

/// Read the signal-catch mask out of the lines of a process status record
/// and test the bit of `signum`.
pub fn signal_handled(lines: &Vec<String>, signum: u32) -> (b: bool)
    requires
        1 <= signum <= 64,
    ensures
        b == signal_handled_spec(lines@.map_values(|l: String| l@), signum),
{
    let ghost all = lines@.map_values(|l: String| l@);
    proof {
        assert(all.skip(0) =~= all);
    }
    let mut i: usize = 0;
    while i < lines.len()
        invariant
            0 <= i <= lines@.len(),
            1 <= signum <= 64,
            all == lines@.map_values(|l: String| l@),
            status_sigcgt(all) == status_sigcgt(all.skip(i as int)),
            forall|k: int| 0 <= k < i ==> !sigcgt_prefix(all[k]),
        decreases lines@.len() - i,
    {
        proof {
            assert(all.skip(i as int)[0] == all[i as int]);
            assert(all.skip(i as int).drop_first() =~= all.skip(i + 1));
        }
        match line_mask(&lines[i]) {
            Some(m) => {
                let b = sig_bit(signum);
                return m & b == b;
            }
            None => {
                if is_sigcgt_line(&lines[i]) {
                    // the first tagged line decides, and it is malformed
                    return false;
                }
            }
        }
        i += 1;
    }
    proof {
        assert(all.skip(lines@.len() as int) =~= Seq::<Seq<char>>::empty());
    }
    false
}

fn is_sigcgt_line(line: &String) -> (b: bool)
    ensures
        b == sigcgt_prefix(line@),
{
    let v = chars_of(line.as_str());
    v.len() >= 7 && v[0] == 'S' && v[1] == 'i' && v[2] == 'g' && v[3] == 'C' && v[4] == 'g'
        && v[5] == 't' && v[6] == ':'
}

/// The signal an init process is actually sent: SIGTERM escalates to
/// SIGKILL when the process has not installed a SIGTERM handler, since it
/// would otherwise ignore the request to terminate.
pub open spec fn effective_signal_spec(init: bool, signum: u32, handled: bool) -> u32 {
    if init && signum == SIGTERM && !handled {
        SIGKILL
    } else {
        signum
    }
}

/// Decide the signal to deliver to a looked-up process.
pub fn effective_signal(init: bool, signum: u32, handled: bool) -> (r: u32)
    ensures
        r == effective_signal_spec(init, signum, handled),
{
    if init && signum == SIGTERM && !handled {
        SIGKILL
    } else {
        signum
    }
}

/// One step of the signal-all broadcast.
#[derive(Clone, Copy, Debug, PartialEq, Eq, Structural)]
pub enum SignalStep {
    /// Freeze the container's cgroup to obtain a stable pid snapshot.
    Freeze,
    /// Deliver the signal to one pid.
    Deliver(i32),
    /// Thaw the cgroup again.
    Thaw,
}

/// The signal-all broadcast plan: freeze the cgroup, deliver the signal to
/// every pid of the snapshot in order, thaw the cgroup.
pub fn signal_all_steps(pids: &Vec<i32>) -> (r: Vec<SignalStep>)
    ensures
        r@.len() == pids@.len() + 2,
        r@[0] == SignalStep::Freeze,
        r@.last() == SignalStep::Thaw,
        forall|i: int| 0 <= i < pids@.len() ==> r@[i + 1] == SignalStep::Deliver(pids@[i]),
{
    let mut r: Vec<SignalStep> = Vec::new();
    r.push(SignalStep::Freeze);
    let mut i: usize = 0;
    while i < pids.len()
        invariant
            0 <= i <= pids@.len(),
            r@.len() == i + 1,
            r@[0] == SignalStep::Freeze,
            forall|k: int| 0 <= k < i ==> r@[k + 1] == SignalStep::Deliver(pids@[k]),
        decreases pids@.len() - i,
    {
        r.push(SignalStep::Deliver(pids[i]));
        i += 1;
    }
    r.push(SignalStep::Thaw);
    r
}

/// How many entries of a sequence of delivery outcomes succeeded.
pub open spec fn count_true(s: Seq<bool>) -> int
    decreases s.len(),
{
    if s.len() == 0 {
        0
    } else {
        count_true(s.drop_last()) + if s.last() {
            1int
        } else {
            0int
        }
    }
}

/// Judge a completed signal-all broadcast: individual delivery failures
/// and freeze or thaw failures are logged by the caller, never returned,
/// so the call as a whole always succeeds.
pub fn signal_all_verdict(freeze_ok: bool, delivered: &Vec<bool>, thaw_ok: bool) -> (r: (
    usize,
    Result<(), ErrorKind>,
))
    ensures
        r.1 is Ok,
        r.0 == count_true(delivered@),
{
    let mut n: usize = 0;
    let mut i: usize = 0;
    while i < delivered.len()
        invariant
            0 <= i <= delivered@.len(),
            n == count_true(delivered@.take(i as int)),
            n <= i,
        decreases delivered@.len() - i,
    {
        proof {
            assert(delivered@.take(i + 1).drop_last() =~= delivered@.take(i as int));
        }
        if delivered[i] {
            n += 1;
        }
        i += 1;
    }
    proof {
        assert(delivered@.take(delivered@.len() as int) =~= delivered@);
    }
    (n, Ok(()))
}

} // verus!
