//! Exit-code synchronization: many concurrent waiters on one process, one
//! destructive reap, no lost exit codes.
//!
//! A waiter first registers a fresh one-shot completion slot under the
//! registry lock, then (outside these functions) suspends on the process's
//! exit-change receiver. When it resumes it re-acquires the lock and
//! finalizes: if the process is still in the table this waiter wins the
//! race — it reads the exit code, broadcasts it to every other registered
//! watcher and removes the process; if the table no longer holds the pid,
//! another waiter already reaped, and this one takes the code out of its
//! own slot.

use vstd::prelude::*;
use crate::errors::ErrorKind;
use crate::registry::{
    container_index, find_proc, find_proc_by_pid, lemma_container_index, lemma_proc_index_by_eid,
    lemma_proc_index_by_pid, proc_index_by_eid, proc_index_by_pid, Container, ProcStage, Process,
    Sandbox,
};

verus! {

/// What a finalized wait observed: this caller performed the reap (and the
/// stream cleanup that goes with it), or it received the code another
/// reaper broadcast.
#[derive(Clone, Copy, Debug, PartialEq, Eq, Structural)]
pub enum WaitOutcome {
    Reaped(i32),
    Received(i32),
}

/// What registration hands back: the fresh watcher slot, the process's
/// pid, and whether an exit-change receiver exists to suspend on.
#[derive(Clone, Copy, Debug, PartialEq, Eq, Structural)]
pub struct WaitRegistration {
    pub watcher: usize,
    pub pid: i32,
    pub has_exit_rx: bool,
}

/// Everything of the sandbox except the container table and the watcher
/// table is unchanged.
pub open spec fn same_but_wait_state(a: Sandbox, b: Sandbox) -> bool {
    &&& b.id == a.id
    &&& b.hostname == a.hostname
    &&& b.running == a.running
    &&& b.container_mounts == a.container_mounts
    &&& b.storages == a.storages
    &&& b.mounts == a.mounts
    &&& b.images == a.images
    &&& b.hooks == a.hooks
    &&& b.shared_ipcns == a.shared_ipcns
    &&& b.shared_utsns == a.shared_utsns
    &&& b.sandbox_pidns == a.sandbox_pidns
    &&& b.event_tx_open == a.event_tx_open
    &&& b.sender_present == a.sender_present
}

/// All containers except the one at `ci` are unchanged.
pub open spec fn containers_equal_except(a: Seq<Container>, b: Seq<Container>, ci: int) -> bool {
    &&& a.len() == b.len()
    &&& forall|j: int| 0 <= j < a.len() && j != ci ==> a[j] == b[j]
}

/// A container's own fields, processes aside, are unchanged.
pub open spec fn container_fields_same(a: Container, b: Container) -> bool {
    &&& a.id == b.id
    &&& a.has_cgroup_manager == b.has_cgroup_manager
}

/// A process is unchanged but for its watcher list.
pub open spec fn process_same_but_watchers(a: Process, b: Process) -> bool {
    &&& a.pid == b.pid
    &&& a.exec_id == b.exec_id
    &&& a.init == b.init
    &&& a.stage == b.stage
    &&& a.exit_code == b.exit_code
    &&& a.has_exit_rx == b.has_exit_rx
    &&& a.term_master == b.term_master
    &&& a.parent_stdin == b.parent_stdin
    &&& a.parent_stdout == b.parent_stdout
    &&& a.parent_stderr == b.parent_stderr
    &&& a.stdin_closed == b.stdin_closed
}

/// The state change of registering watcher `w` on the process at
/// `(ci, pi)`: one fresh empty slot, one new list entry, nothing else.
pub open spec fn register_post(pre: Sandbox, post: Sandbox, ci: int, pi: int, w: usize) -> bool {
    let c0 = pre.containers@[ci];
    let c1 = post.containers@[ci];
    &&& same_but_wait_state(pre, post)
    &&& w == pre.watcher_states@.len()
    &&& post.watcher_states@ == pre.watcher_states@.push(None)
    &&& containers_equal_except(pre.containers@, post.containers@, ci)
    &&& container_fields_same(c0, c1)
    &&& c1.processes@.len() == c0.processes@.len()
    &&& forall|q: int| 0 <= q < c0.processes@.len() && q != pi ==> c1.processes@[q]
        == c0.processes@[q]
    &&& process_same_but_watchers(c0.processes@[pi], c1.processes@[pi])
    &&& c1.processes@[pi].exit_watchers@ == c0.processes@[pi].exit_watchers@.push(w)
}

/// The state change of a winning (reaping) finalization by watcher `me` on
/// the process at `(ci, pi)`: the process leaves the table — which closes
/// its streams — and every other registered watcher's slot is filled with
/// the exit code.
pub open spec fn reap_post(pre: Sandbox, post: Sandbox, ci: int, pi: int, me: usize, code: i32) -> bool {
    let c0 = pre.containers@[ci];
    let p0 = c0.processes@[pi];
    &&& same_but_wait_state(pre, post)
    &&& code == p0.exit_code
    &&& containers_equal_except(pre.containers@, post.containers@, ci)
    &&& container_fields_same(c0, post.containers@[ci])
    &&& post.containers@[ci].processes@ == c0.processes@.remove(pi)
    &&& post.watcher_states@.len() == pre.watcher_states@.len()
    &&& forall|x: int|
        0 <= x < pre.watcher_states@.len() ==> #[trigger] post.watcher_states@[x] == (
        if p0.exit_watchers@.contains(x as usize) && x != me as int {
            Some(code)
        } else {
            pre.watcher_states@[x]
        })
}

fn slot_listed(ws: &Vec<usize>, x: usize) -> (b: bool)
    ensures
        b == ws@.contains(x),
{
    let mut i: usize = 0;
    while i < ws.len()
        invariant
            0 <= i <= ws@.len(),
            forall|k: int| 0 <= k < i ==> ws@[k] != x,
        decreases ws@.len() - i,
    {
        if ws[i] == x {
            return true;
        }
        i += 1;
    }
    false
}

impl Sandbox {
    /// First half of a wait, under the registry lock: locate the process,
    /// register a fresh completion slot as an exit watcher, and hand back
    /// the pid and whether an exit-change receiver exists. The caller
    /// releases the lock and suspends before finalizing.
    pub fn register_exit_watcher(&mut self, cid: &String, eid: &String) -> (r: Result<
        WaitRegistration,
        ErrorKind,
    >)
        requires
            old(self).wf(),
        ensures
            final(self).wf(),
            match container_index(old(self).containers@, cid@) {
                None => r == Err::<WaitRegistration, ErrorKind>(ErrorKind::InvalidArgument)
                    && *final(self) == *old(self),
                Some(ci) => match proc_index_by_eid(old(self).containers@[ci].processes@, eid@) {
                    None => r == Err::<WaitRegistration, ErrorKind>(ErrorKind::InvalidArgument)
                        && *final(self) == *old(self),
                    Some(pi) => {
                        let p = old(self).containers@[ci].processes@[pi];
                        r matches Ok(reg) && reg.pid == p.pid && reg.has_exit_rx == p.has_exit_rx
                            && register_post(*old(self), *final(self), ci, pi, reg.watcher)
                    },
                },
            },
    {
        let ci = match self.find_container(cid) {
            Some(ci) => ci,
            None => {
                return Err(ErrorKind::InvalidArgument);
            }
        };
        proof {
            lemma_container_index(self.containers@, cid@);
        }
        let pi = match find_proc(&self.containers[ci].processes, eid) {
            Some(pi) => pi,
            None => {
                return Err(ErrorKind::InvalidArgument);
            }
        };
        proof {
            lemma_proc_index_by_eid(self.containers@[ci as int].processes@, eid@);
        }
        let w = self.watcher_states.len();
        self.watcher_states.push(None);
        let c = &mut self.containers[ci];
        let p = &mut c.processes[pi];
        p.exit_watchers.push(w);
        let reg = WaitRegistration { watcher: w, pid: p.pid, has_exit_rx: p.has_exit_rx };
        proof {
            let pre = *old(self);
            let post = *self;
            assert(post.containers@[ci as int].processes@[pi as int].exit_watchers@
                == pre.containers@[ci as int].processes@[pi as int].exit_watchers@.push(w));
            assert forall|k: int|
                0 <= k < post.containers@.len() implies (#[trigger] post.containers@[k]).wf()
                && post.containers@[k].watchers_bounded(post.watcher_states@.len() as int) by {
                assert(pre.containers@[k].wf());
                assert(pre.containers@[k].watchers_bounded(pre.watcher_states@.len() as int));
                if k == ci as int {
                    let c0 = pre.containers@[k];
                    let c1 = post.containers@[k];
                    assert forall|a: int, b: int|
                        0 <= a < c1.processes@.len() && 0 <= b
                            < c1.processes@[a].exit_watchers@.len() implies #[trigger] c1.processes@[a].exit_watchers@[b]
                        < post.watcher_states@.len() as int by {
                        if a == pi as int {
                            if b < c0.processes@[a].exit_watchers@.len() {
                                assert(c1.processes@[a].exit_watchers@[b]
                                    == c0.processes@[a].exit_watchers@[b]);
                            } else {
                                assert(c1.processes@[a].exit_watchers@[b] == w);
                            }
                        } else {
                            assert(c1.processes@[a] == c0.processes@[a]);
                        }
                    }
                }
            }
        }
        Ok(reg)
    }

    /// Second half of a wait, back under the registry lock. If the pid is
    /// still in the table this caller wins the reap race: it reads the
    /// exit code, broadcasts it to every other registered watcher and
    /// removes the process (closing its streams). Otherwise another caller
    /// already reaped, and this one takes the code out of its own slot,
    /// failing only if the slot was never filled.
    pub fn finalize_wait(&mut self, cid: &String, pid: i32, me: usize) -> (r: Result<
        WaitOutcome,
        ErrorKind,
    >)
        requires
            old(self).wf(),
            me < old(self).watcher_states@.len(),
        ensures
            final(self).wf(),
            match container_index(old(self).containers@, cid@) {
                None => r == Err::<WaitOutcome, ErrorKind>(ErrorKind::InvalidArgument)
                    && *final(self) == *old(self),
                Some(ci) => match proc_index_by_pid(old(self).containers@[ci].processes@, pid) {
                    Some(pi) => r matches Ok(WaitOutcome::Reaped(code)) && reap_post(
                        *old(self),
                        *final(self),
                        ci,
                        pi,
                        me,
                        code,
                    ),
                    None => *final(self) == *old(self) && (
                    match old(self).watcher_states@[me as int] {
                        Some(c) => r == Ok::<WaitOutcome, ErrorKind>(WaitOutcome::Received(c)),
                        None => r == Err::<WaitOutcome, ErrorKind>(ErrorKind::Internal),
                    }),
                },
            },
    {
        let ci = match self.find_container(cid) {
            Some(ci) => ci,
            None => {
                return Err(ErrorKind::InvalidArgument);
            }
        };
        proof {
            lemma_container_index(self.containers@, cid@);
        }
        let pi = match find_proc_by_pid(&self.containers[ci].processes, pid) {
            Some(pi) => pi,
            None => {
                // lost the reap race: take the code from this call's slot
                return match self.watcher_states[me] {
                    Some(c) => Ok(WaitOutcome::Received(c)),
                    None => Err(ErrorKind::Internal),
                };
            }
        };
        proof {
            lemma_proc_index_by_pid(self.containers@[ci as int].processes@, pid);
        }
        let ghost pre = *self;
        let c = &mut self.containers[ci];
        let p = c.processes.remove(pi);
        let code = p.exit_code;
        proof {
            let c0 = pre.containers@[ci as int];
            assert(self.containers@[ci as int].processes@ =~= c0.processes@.remove(pi as int));
            assert forall|a: int, b: int|
                0 <= a < c0.processes@.remove(pi as int).len() && 0 <= b < c0.processes@.remove(
                    pi as int,
                )[a].exit_watchers@.len() implies #[trigger] c0.processes@.remove(
                pi as int,
            )[a].exit_watchers@[b] < pre.watcher_states@.len() as int by {
                assert(c0.watchers_bounded(pre.watcher_states@.len() as int));
                if a < pi as int {
                    assert(c0.processes@.remove(pi as int)[a] == c0.processes@[a]);
                } else {
                    assert(c0.processes@.remove(pi as int)[a] == c0.processes@[a + 1]);
                }
            }
        }
        let ghost mid = *self;
        let mut x: usize = 0;
        while x < self.watcher_states.len()
            invariant
                0 <= x <= mid.watcher_states@.len(),
                self.containers == mid.containers,
                same_but_wait_state(mid, *self),
                self.watcher_states@.len() == mid.watcher_states@.len(),
                forall|y: int|
                    0 <= y < x ==> #[trigger] self.watcher_states@[y] == (
                    if p.exit_watchers@.contains(y as usize) && y != me as int {
                        Some(code)
                    } else {
                        mid.watcher_states@[y]
                    }),
                forall|y: int|
                    x <= y < mid.watcher_states@.len() ==> #[trigger] self.watcher_states@[y]
                        == mid.watcher_states@[y],
            decreases mid.watcher_states@.len() - x,
        {
            if slot_listed(&p.exit_watchers, x) && x != me {
                self.watcher_states[x] = Some(code);
            }
            x += 1;
        }
        proof {
            let c0 = pre.containers@[ci as int];
            assert(reap_post(pre, *self, ci as int, pi as int, me, code));
            assert forall|j: int|
                0 <= j < self.containers@.len() implies (#[trigger] self.containers@[j]).wf()
                && self.containers@[j].watchers_bounded(self.watcher_states@.len() as int) by {
                assert(pre.containers@[j].wf());
                assert(pre.containers@[j].watchers_bounded(pre.watcher_states@.len() as int));
                if j == ci as int {
                    let ps0 = c0.processes@;
                    let ps1 = self.containers@[j].processes@;
                    assert(ps1 == ps0.remove(pi as int));
                    assert forall|a: int|
                        0 <= a < ps1.len() implies #[trigger] ps1[a] == (if a < pi as int {
                        ps0[a]
                    } else {
                        ps0[a + 1]
                    }) by {}
                }
            }
        }
        Ok(WaitOutcome::Reaped(code))
    }
}

/// A process is unchanged but for its lifecycle stage and exit code.
pub open spec fn process_same_but_exit(a: Process, b: Process) -> bool {
    &&& a.pid == b.pid
    &&& a.exec_id == b.exec_id
    &&& a.init == b.init
    &&& a.exit_watchers == b.exit_watchers
    &&& a.has_exit_rx == b.has_exit_rx
    &&& a.term_master == b.term_master
    &&& a.parent_stdin == b.parent_stdin
    &&& a.parent_stdout == b.parent_stdout
    &&& a.parent_stderr == b.parent_stderr
    &&& a.stdin_closed == b.stdin_closed
}

/// The state change of recording an exit: the process at `(ci, pi)` turns
/// `Exited` carrying `code`, and nothing else moves.
pub open spec fn exited_post(pre: Sandbox, post: Sandbox, ci: int, pi: int, code: i32) -> bool {
    let c0 = pre.containers@[ci];
    let c1 = post.containers@[ci];
    &&& same_but_wait_state(pre, post)
    &&& post.watcher_states == pre.watcher_states
    &&& containers_equal_except(pre.containers@, post.containers@, ci)
    &&& container_fields_same(c0, c1)
    &&& c1.processes@.len() == c0.processes@.len()
    &&& forall|q: int| 0 <= q < c0.processes@.len() && q != pi ==> c1.processes@[q]
        == c0.processes@[q]
    &&& process_same_but_exit(c0.processes@[pi], c1.processes@[pi])
    &&& c1.processes@[pi].stage == ProcStage::Exited
    &&& c1.processes@[pi].exit_code == code
}

impl Sandbox {
    /// Record a process exit reported by the runtime: the transition the
    /// exit-change receiver announces to waiters. The exit code is
    /// write-once: the process must not already be `Exited`.
    pub fn mark_exited(&mut self, cid: &String, pid: i32, code: i32) -> (r: Result<(), ErrorKind>)
        requires
            old(self).wf(),
            match container_index(old(self).containers@, cid@) {
                None => true,
                Some(ci) => match proc_index_by_pid(old(self).containers@[ci].processes@, pid) {
                    None => true,
                    Some(pi) => old(self).containers@[ci].processes@[pi].stage
                        != ProcStage::Exited,
                },
            },
        ensures
            final(self).wf(),
            match container_index(old(self).containers@, cid@) {
                None => r == Err::<(), ErrorKind>(ErrorKind::InvalidArgument) && *final(self)
                    == *old(self),
                Some(ci) => match proc_index_by_pid(old(self).containers@[ci].processes@, pid) {
                    None => r == Err::<(), ErrorKind>(ErrorKind::InvalidArgument) && *final(self)
                        == *old(self),
                    Some(pi) => r is Ok && exited_post(*old(self), *final(self), ci, pi, code),
                },
            },
    {
        let ci = match self.find_container(cid) {
            Some(ci) => ci,
            None => {
                return Err(ErrorKind::InvalidArgument);
            }
        };
        proof {
            lemma_container_index(self.containers@, cid@);
        }
        let pi = match find_proc_by_pid(&self.containers[ci].processes, pid) {
            Some(pi) => pi,
            None => {
                return Err(ErrorKind::InvalidArgument);
            }
        };
        proof {
            lemma_proc_index_by_pid(self.containers@[ci as int].processes@, pid);
        }
        let c = &mut self.containers[ci];
        let q = &mut c.processes[pi];
        q.stage = ProcStage::Exited;
        q.exit_code = code;
        proof {
            let pre = *old(self);
            let post = *self;
            assert forall|k: int|
                0 <= k < post.containers@.len() implies (#[trigger] post.containers@[k]).wf()
                && post.containers@[k].watchers_bounded(post.watcher_states@.len() as int) by {
                assert(pre.containers@[k].wf());
                assert(pre.containers@[k].watchers_bounded(pre.watcher_states@.len() as int));
                if k == ci as int {
                    let c0 = pre.containers@[k];
                    let c1 = post.containers@[k];
                    assert forall|a: int, b: int|
                        0 <= a < c1.processes@.len() && 0 <= b
                            < c1.processes@[a].exit_watchers@.len() implies #[trigger] c1.processes@[a].exit_watchers@[b]
                        < post.watcher_states@.len() as int by {
                        if a != pi as int {
                            assert(c1.processes@[a] == c0.processes@[a]);
                        }
                    }
                }
            }
        }
        Ok(())
    }
}

/// Every concurrent waiter on one process observes the identical exit
/// code, and exactly one of them performs the destructive reap. After one
/// waiter reaps with some code, that code is the process's recorded exit
/// code, the slot of every other registered watcher holds that same code,
/// and the pid has left the table, so no later finalization can reap
/// again — it can only receive the same code from its slot.
pub proof fn lemma_exit_codes_agree(
    pre: Sandbox,
    post: Sandbox,
    ci: int,
    pi: int,
    me: usize,
    code: i32,
    other: usize,
)
    requires
        pre.wf(),
        0 <= ci < pre.containers@.len(),
        0 <= pi < pre.containers@[ci].processes@.len(),
        reap_post(pre, post, ci, pi, me, code),
        pre.containers@[ci].processes@[pi].exit_watchers@.contains(other),
        other != me,
    ensures
        code == pre.containers@[ci].processes@[pi].exit_code,
        post.watcher_states@[other as int] == Some(code),
        proc_index_by_pid(
            post.containers@[ci].processes@,
            pre.containers@[ci].processes@[pi].pid,
        ) is None,
{
    let c0 = pre.containers@[ci];
    let ps0 = c0.processes@;
    let p0 = ps0[pi];
    assert(c0.watchers_bounded(pre.watcher_states@.len() as int));
    let kw = choose|kw: int|
        0 <= kw < p0.exit_watchers@.len() && p0.exit_watchers@[kw] == other;
    assert(p0.exit_watchers@[kw] < pre.watcher_states@.len());
    assert(post.watcher_states@[other as int] == Some(code));
    let ps1 = post.containers@[ci].processes@;
    assert(ps1 == ps0.remove(pi));
    assert forall|a: int| 0 <= a < ps1.len() implies #[trigger] ps1[a].pid != p0.pid by {
        if a < pi {
            assert(ps1[a] == ps0[a]);
        } else {
            assert(ps1[a] == ps0[a + 1]);
        }
        assert(c0.wf());
    }
    lemma_proc_index_by_pid(ps1, p0.pid);
}

/// A waiter that arrives at its finalization strictly after the reap does
/// not block and does not miss the code. In the reaped state the
/// container is still found under its ID, the pid is no longer in its
/// table, and this waiter's slot holds the exit code — so by the contract
/// of `finalize_wait` its call returns exactly `Received` of the
/// identical code.
pub proof fn lemma_late_waiter_gets_code(
    pre: Sandbox,
    post: Sandbox,
    ci: int,
    pi: int,
    me: usize,
    code: i32,
    other: usize,
)
    requires
        pre.wf(),
        0 <= ci < pre.containers@.len(),
        0 <= pi < pre.containers@[ci].processes@.len(),
        reap_post(pre, post, ci, pi, me, code),
        pre.containers@[ci].processes@[pi].exit_watchers@.contains(other),
        other != me,
    ensures
        container_index(post.containers@, pre.containers@[ci].id@) == Some(ci),
        proc_index_by_pid(
            post.containers@[ci].processes@,
            pre.containers@[ci].processes@[pi].pid,
        ) is None,
        other < post.watcher_states@.len(),
        post.watcher_states@[other as int] == Some(code),
{
    let c0 = pre.containers@[ci];
    let p0 = c0.processes@[pi];
    let cid = c0.id@;
    assert(c0.watchers_bounded(pre.watcher_states@.len() as int));
    let kw = choose|kw: int|
        0 <= kw < p0.exit_watchers@.len() && p0.exit_watchers@[kw] == other;
    assert(p0.exit_watchers@[kw] < pre.watcher_states@.len());
    lemma_exit_codes_agree(pre, post, ci, pi, me, code, other);
    // the container keeps its place: every other ID still differs
    assert(post.containers@[ci].id@ == cid);
    assert forall|j: int|
        0 <= j < post.containers@.len() && j != ci implies #[trigger] post.containers@[j].id@
        != cid by {
        assert(post.containers@[j] == pre.containers@[j]);
    }
    lemma_container_index(post.containers@, cid);
    match container_index(post.containers@, cid) {
        None => {
            assert(false);
        }
        Some(i) => {
            if i != ci {
                assert(post.containers@[i].id@ == cid);
                assert(false);
            }
        }
    }
}

} // verus!
