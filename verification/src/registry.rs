//! The sandbox registry: one shared table of containers, their processes
//! and their mount records, plus the sandbox-wide fields. Every handler
//! mutates it under one lock (held by the caller); these functions are the
//! state transitions performed while the lock is held.
//!
//! Presence in the container table is the only lifecycle marker. A process
//! is keyed by pid inside its container; once reaped it is removed and
//! never reappears.

use vstd::prelude::*;
use crate::ident::valid_id;
use crate::ocispec::{Hooks, KeyVal};

verus! {

/// The lifecycle stage of one tracked process. Reaping is not a stage: a
/// reaped process has left the table.
#[derive(Clone, Copy, Debug, PartialEq, Eq, Structural)]
pub enum ProcStage {
    Created,
    Running,
    Exited,
}

/// One OS process tracked by the agent: identity, exit-code cell, the
/// exit watchers registered so far, and its stream handles.
#[derive(Clone, Debug)]
pub struct Process {
    pub pid: i32,
    pub exec_id: String,
    /// Whether this is the container's init process.
    pub init: bool,
    pub stage: ProcStage,
    /// Meaningful once `stage` is `Exited`; write-once.
    pub exit_code: i32,
    /// Completion channels of current waiters, as slots of the sandbox's
    /// watcher table.
    pub exit_watchers: Vec<usize>,
    /// Whether a shared exit-change receiver exists for this process.
    pub has_exit_rx: bool,
    /// Whether a terminal master descriptor is attached.
    pub term_master: bool,
    pub parent_stdin: bool,
    pub parent_stdout: bool,
    pub parent_stderr: bool,
    /// Whether the write side of the input stream has been shut down.
    pub stdin_closed: bool,
}

/// A named group of one init process plus exec'd children.
#[derive(Clone, Debug)]
pub struct Container {
    pub id: String,
    pub processes: Vec<Process>,
    pub has_cgroup_manager: bool,
}

/// The mount records of one container.
#[derive(Clone, Debug)]
pub struct MountList {
    pub cid: String,
    pub mounts: Vec<String>,
}

/// The single per-sandbox aggregate: all containers plus sandbox-wide
/// state. The watcher table models the one-shot exit-code channels: a
/// slot is allocated at registration, filled by the broadcast of a reap,
/// and read by a waiter that lost the reap race.
pub struct Sandbox {
    pub id: String,
    pub hostname: String,
    pub running: bool,
    pub containers: Vec<Container>,
    pub container_mounts: Vec<MountList>,
    pub storages: Vec<String>,
    pub mounts: Vec<String>,
    pub images: Vec<KeyVal>,
    pub hooks: Option<Hooks>,
    pub shared_ipcns: String,
    pub shared_utsns: String,
    pub sandbox_pidns: Option<String>,
    /// The sender half of the OOM event channel is still open.
    pub event_tx_open: bool,
    /// The one-shot shutdown signal has not been consumed yet.
    pub sender_present: bool,
    pub watcher_states: Vec<Option<i32>>,
}

/// The index of the container with the given ID.
pub open spec fn container_index(cs: Seq<Container>, cid: Seq<char>) -> Option<int>
    decreases cs.len(),
{
    if cs.len() == 0 {
        None
    } else if cs[0].id@ == cid {
        Some(0int)
    } else {
        match container_index(cs.drop_first(), cid) {
            Some(i) => Some(i + 1),
            None => None,
        }
    }
}

pub proof fn lemma_container_index(cs: Seq<Container>, cid: Seq<char>)
    ensures
        match container_index(cs, cid) {
            Some(i) => 0 <= i < cs.len() && cs[i].id@ == cid && (forall|j: int|
                0 <= j < i ==> cs[j].id@ != cid),
            None => forall|j: int| 0 <= j < cs.len() ==> cs[j].id@ != cid,
        },
    decreases cs.len(),
{
    if cs.len() > 0 && cs[0].id@ != cid {
        lemma_container_index(cs.drop_first(), cid);
        assert(forall|j: int| 1 <= j < cs.len() ==> cs[j] == cs.drop_first()[j - 1]);
    }
}

/// Whether a process answers a lookup by exec ID: an empty exec ID names
/// the container's init process.
pub open spec fn proc_matches(p: Process, eid: Seq<char>) -> bool {
    if eid.len() == 0 {
        p.init
    } else {
        p.exec_id@ == eid
    }
}

/// The index of the process a (possibly empty) exec ID names.
pub open spec fn proc_index_by_eid(ps: Seq<Process>, eid: Seq<char>) -> Option<int>
    decreases ps.len(),
{
    if ps.len() == 0 {
        None
    } else if proc_matches(ps[0], eid) {
        Some(0int)
    } else {
        match proc_index_by_eid(ps.drop_first(), eid) {
            Some(i) => Some(i + 1),
            None => None,
        }
    }
}

pub proof fn lemma_proc_index_by_eid(ps: Seq<Process>, eid: Seq<char>)
    ensures
        match proc_index_by_eid(ps, eid) {
            Some(i) => 0 <= i < ps.len() && proc_matches(ps[i], eid) && (forall|j: int|
                0 <= j < i ==> !proc_matches(ps[j], eid)),
            None => forall|j: int| 0 <= j < ps.len() ==> !proc_matches(ps[j], eid),
        },
    decreases ps.len(),
{
    if ps.len() > 0 && !proc_matches(ps[0], eid) {
        lemma_proc_index_by_eid(ps.drop_first(), eid);
        assert(forall|j: int| 1 <= j < ps.len() ==> ps[j] == ps.drop_first()[j - 1]);
    }
}

/// The index of the process with the given pid.
pub open spec fn proc_index_by_pid(ps: Seq<Process>, pid: i32) -> Option<int>
    decreases ps.len(),
{
    if ps.len() == 0 {
        None
    } else if ps[0].pid == pid {
        Some(0int)
    } else {
        match proc_index_by_pid(ps.drop_first(), pid) {
            Some(i) => Some(i + 1),
            None => None,
        }
    }
}

pub proof fn lemma_proc_index_by_pid(ps: Seq<Process>, pid: i32)
    ensures
        match proc_index_by_pid(ps, pid) {
            Some(i) => 0 <= i < ps.len() && ps[i].pid == pid && (forall|j: int|
                0 <= j < i ==> ps[j].pid != pid),
            None => forall|j: int| 0 <= j < ps.len() ==> ps[j].pid != pid,
        },
    decreases ps.len(),
{
    if ps.len() > 0 && ps[0].pid != pid {
        lemma_proc_index_by_pid(ps.drop_first(), pid);
        assert(forall|j: int| 1 <= j < ps.len() ==> ps[j] == ps.drop_first()[j - 1]);
    }
}

impl Container {
    /// Process keys are unique: pids, exec IDs, and the init marker.
    pub open spec fn wf(self) -> bool {
        &&& forall|i: int, j: int|
            0 <= i < j < self.processes@.len() ==> #[trigger] self.processes@[i].pid
                != #[trigger] self.processes@[j].pid
        &&& forall|i: int, j: int|
            0 <= i < j < self.processes@.len() ==> #[trigger] self.processes@[i].exec_id@
                != #[trigger] self.processes@[j].exec_id@
        &&& forall|i: int, j: int|
            0 <= i < j < self.processes@.len() ==> !(#[trigger] self.processes@[i].init
                && #[trigger] self.processes@[j].init)
    }

    /// All watcher slots this container's processes cite exist in a
    /// watcher table of length `n`.
    pub open spec fn watchers_bounded(self, n: int) -> bool {
        forall|p: int, k: int|
            0 <= p < self.processes@.len() && 0 <= k < self.processes@[p].exit_watchers@.len()
                ==> #[trigger] self.processes@[p].exit_watchers@[k] < n
    }
}

impl Sandbox {
    /// The registry invariant: container IDs are unique and satisfy the ID
    /// grammar, mount records are keyed uniquely, containers are
    /// well-formed, and every registered watcher has a slot.
    pub open spec fn wf(self) -> bool {
        &&& forall|i: int, j: int|
            0 <= i < j < self.containers@.len() ==> #[trigger] self.containers@[i].id@
                != #[trigger] self.containers@[j].id@
        &&& forall|i: int|
            0 <= i < self.containers@.len() ==> valid_id(#[trigger] self.containers@[i].id@)
        &&& forall|i: int|
            0 <= i < self.containers@.len() ==> (#[trigger] self.containers@[i]).wf()
        &&& forall|i: int|
            0 <= i < self.containers@.len() ==> (#[trigger] self.containers@[i]).watchers_bounded(
                self.watcher_states@.len() as int,
            )
        &&& forall|i: int, j: int|
            0 <= i < j < self.container_mounts@.len() ==> #[trigger] self.container_mounts@[i].cid@
                != #[trigger] self.container_mounts@[j].cid@
    }

    /// A fresh sandbox: empty, not yet running.
    pub fn new() -> (s: Sandbox)
        ensures
            s.wf(),
            s.containers@.len() == 0,
            s.container_mounts@.len() == 0,
            s.storages@.len() == 0,
            s.mounts@.len() == 0,
            s.images@.len() == 0,
            s.hooks is None,
            s.running == false,
            s.id@.len() == 0,
            s.hostname@.len() == 0,
            s.sandbox_pidns is None,
            s.event_tx_open == true,
            s.sender_present == true,
            s.watcher_states@.len() == 0,
    {
        Sandbox {
            id: String::new(),
            hostname: String::new(),
            running: false,
            containers: Vec::new(),
            container_mounts: Vec::new(),
            storages: Vec::new(),
            mounts: Vec::new(),
            images: Vec::new(),
            hooks: None,
            shared_ipcns: String::new(),
            shared_utsns: String::new(),
            sandbox_pidns: None,
            event_tx_open: true,
            sender_present: true,
            watcher_states: Vec::new(),
        }
    }

    /// Find a container by ID.
    pub fn find_container(&self, cid: &String) -> (r: Option<usize>)
        ensures
            match r {
                Some(i) => container_index(self.containers@, cid@) == Some(i as int),
                None => container_index(self.containers@, cid@) is None,
            },
    {
        proof {
            assert(self.containers@.skip(0) =~= self.containers@);
        }
        let mut i: usize = 0;
        while i < self.containers.len()
            invariant
                0 <= i <= self.containers@.len(),
                container_index(self.containers@, cid@) == (
                match container_index(self.containers@.skip(i as int), cid@) {
                    Some(k) => Some(k + i),
                    None => None,
                }),
            decreases self.containers@.len() - i,
        {
            proof {
                assert(self.containers@.skip(i as int)[0] == self.containers@[i as int]);
                assert(self.containers@.skip(i as int).drop_first() =~= self.containers@.skip(
                    i + 1,
                ));
            }
            if self.containers[i].id == *cid {
                return Some(i);
            }
            i += 1;
        }
        proof {
            assert(self.containers@.skip(self.containers@.len() as int)
                =~= Seq::<Container>::empty());
        }
        None
    }

    /// Register a container. The caller has validated the ID and had the
    /// runtime accept the container; registration is the last step of
    /// creation.
    pub fn add_container(&mut self, c: Container)
        requires
            old(self).wf(),
            c.wf(),
            valid_id(c.id@),
            container_index(old(self).containers@, c.id@) is None,
            c.watchers_bounded(old(self).watcher_states@.len() as int),
        ensures
            final(self).wf(),
            final(self).containers@ == old(self).containers@.push(c),
            same_but_containers(*old(self), *final(self)),
    {
        proof {
            lemma_container_index(self.containers@, c.id@);
        }
        self.containers.push(c);
    }
}

pub(crate) fn find_proc(ps: &Vec<Process>, eid: &String) -> (r: Option<usize>)
    ensures
        match r {
            Some(i) => proc_index_by_eid(ps@, eid@) == Some(i as int),
            None => proc_index_by_eid(ps@, eid@) is None,
        },
{
    proof {
        assert(ps@.skip(0) =~= ps@);
    }
    let empty = eid.as_str().is_empty();
    let mut i: usize = 0;
    while i < ps.len()
        invariant
            0 <= i <= ps@.len(),
            empty == (eid@.len() == 0),
            proc_index_by_eid(ps@, eid@) == (match proc_index_by_eid(ps@.skip(i as int), eid@) {
                Some(k) => Some(k + i),
                None => None,
            }),
        decreases ps@.len() - i,
    {
        proof {
            assert(ps@.skip(i as int)[0] == ps@[i as int]);
            assert(ps@.skip(i as int).drop_first() =~= ps@.skip(i + 1));
        }
        let hit = if empty {
            ps[i].init
        } else {
            ps[i].exec_id == *eid
        };
        if hit {
            return Some(i);
        }
        i += 1;
    }
    proof {
        assert(ps@.skip(ps@.len() as int) =~= Seq::<Process>::empty());
    }
    None
}

pub(crate) fn find_proc_by_pid(ps: &Vec<Process>, pid: i32) -> (r: Option<usize>)
    ensures
        match r {
            Some(i) => proc_index_by_pid(ps@, pid) == Some(i as int),
            None => proc_index_by_pid(ps@, pid) is None,
        },
{
    proof {
        assert(ps@.skip(0) =~= ps@);
    }
    let mut i: usize = 0;
    while i < ps.len()
        invariant
            0 <= i <= ps@.len(),
            proc_index_by_pid(ps@, pid) == (match proc_index_by_pid(ps@.skip(i as int), pid) {
                Some(k) => Some(k + i),
                None => None,
            }),
        decreases ps@.len() - i,
    {
        proof {
            assert(ps@.skip(i as int)[0] == ps@[i as int]);
            assert(ps@.skip(i as int).drop_first() =~= ps@.skip(i + 1));
        }
        if ps[i].pid == pid {
            return Some(i);
        }
        i += 1;
    }
    proof {
        assert(ps@.skip(ps@.len() as int) =~= Seq::<Process>::empty());
    }
    None
}

/// The index of the mount record of the given container.
pub open spec fn mount_index(ms: Seq<MountList>, cid: Seq<char>) -> Option<int>
    decreases ms.len(),
{
    if ms.len() == 0 {
        None
    } else if ms[0].cid@ == cid {
        Some(0int)
    } else {
        match mount_index(ms.drop_first(), cid) {
            Some(i) => Some(i + 1),
            None => None,
        }
    }
}

pub proof fn lemma_mount_index(ms: Seq<MountList>, cid: Seq<char>)
    ensures
        match mount_index(ms, cid) {
            Some(i) => 0 <= i < ms.len() && ms[i].cid@ == cid && (forall|j: int|
                0 <= j < i ==> ms[j].cid@ != cid),
            None => forall|j: int| 0 <= j < ms.len() ==> ms[j].cid@ != cid,
        },
    decreases ms.len(),
{
    if ms.len() > 0 && ms[0].cid@ != cid {
        lemma_mount_index(ms.drop_first(), cid);
        assert(forall|j: int| 1 <= j < ms.len() ==> ms[j] == ms.drop_first()[j - 1]);
    }
}

pub(crate) fn find_mounts(ms: &Vec<MountList>, cid: &String) -> (r: Option<usize>)
    ensures
        match r {
            Some(i) => mount_index(ms@, cid@) == Some(i as int),
            None => mount_index(ms@, cid@) is None,
        },
{
    proof {
        assert(ms@.skip(0) =~= ms@);
    }
    let mut i: usize = 0;
    while i < ms.len()
        invariant
            0 <= i <= ms@.len(),
            mount_index(ms@, cid@) == (match mount_index(ms@.skip(i as int), cid@) {
                Some(k) => Some(k + i),
                None => None,
            }),
        decreases ms@.len() - i,
    {
        proof {
            assert(ms@.skip(i as int)[0] == ms@[i as int]);
            assert(ms@.skip(i as int).drop_first() =~= ms@.skip(i + 1));
        }
        if ms[i].cid == *cid {
            return Some(i);
        }
        i += 1;
    }
    proof {
        assert(ms@.skip(ms@.len() as int) =~= Seq::<MountList>::empty());
    }
    None
}

/// Everything of the sandbox except the container table is unchanged.
pub open spec fn same_but_containers(a: Sandbox, b: Sandbox) -> bool {
    &&& b.id == a.id
    &&& b.hostname == a.hostname
    &&& b.running == a.running
    &&& b.container_mounts == a.container_mounts
    &&& b.storages == a.storages
    &&& b.mounts == a.mounts
    &&& b.images == a.images
    &&& b.hooks == a.hooks
    &&& b.shared_ipcns == a.shared_ipcns
    &&& b.shared_utsns == a.shared_utsns
    &&& b.sandbox_pidns == a.sandbox_pidns
    &&& b.event_tx_open == a.event_tx_open
    &&& b.sender_present == a.sender_present
    &&& b.watcher_states == a.watcher_states
}

} // verus!
