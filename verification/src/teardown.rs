//! Deadline-bound container removal and sandbox teardown.
//!
//! Removal with a deadline races the background destroy task against a
//! timer; the caller performs the race outside and hands the outcome in.
//! The registry-side resource release — mount records, storages, the
//! container entry itself — happens here, under the lock.

use vstd::prelude::*;
use crate::errors::ErrorKind;
use crate::registry::{
    container_index, find_mounts, lemma_container_index, lemma_mount_index, mount_index, Sandbox,
};

verus! {

/// How the race between the background destroy task and the deadline
/// timer came out.
#[derive(Clone, Copy, Debug, PartialEq, Eq, Structural)]
pub enum DestroyRace {
    /// The task signalled completion before the deadline.
    Completed,
    /// The timer fired first; the task keeps running unattended.
    DeadlineElapsed,
    /// The task ended without signalling completion.
    TaskFailed,
}

/// Judge a deadline-bound removal: only a completed destroy lets removal
/// proceed; an elapsed deadline is a timeout, a dead task an internal
/// failure.
pub fn interpret_destroy_race(outcome: DestroyRace) -> (r: Result<(), ErrorKind>)
    ensures
        r is Ok <==> outcome == DestroyRace::Completed,
        outcome == DestroyRace::DeadlineElapsed ==> r == Err::<(), ErrorKind>(ErrorKind::Timeout),
        outcome == DestroyRace::TaskFailed ==> r == Err::<(), ErrorKind>(ErrorKind::Internal),
{
    match outcome {
        DestroyRace::Completed => Ok(()),
        DestroyRace::DeadlineElapsed => Err(ErrorKind::Timeout),
        DestroyRace::TaskFailed => Err(ErrorKind::Internal),
    }
}

/// Whether some string of the list reads `x`.
pub open spec fn has_str(ss: Seq<String>, x: Seq<char>) -> bool {
    exists|i: int| 0 <= i < ss.len() && #[trigger] ss[i]@ == x
}

/// The storage list with every entry named by `m` dropped, order kept.
pub open spec fn drop_listed(ss: Seq<String>, m: Seq<String>) -> Seq<String>
    decreases ss.len(),
{
    if ss.len() == 0 {
        Seq::empty()
    } else if has_str(m, ss.last()@) {
        drop_listed(ss.drop_last(), m)
    } else {
        drop_listed(ss.drop_last(), m).push(ss.last())
    }
}

fn str_listed(m: &Vec<String>, x: &String) -> (b: bool)
    ensures
        b == has_str(m@, x@),
{
    let mut i: usize = 0;
    while i < m.len()
        invariant
            0 <= i <= m@.len(),
            forall|k: int| 0 <= k < i ==> #[trigger] m@[k]@ != x@,
        decreases m@.len() - i,
    {
        if m[i] == *x {
            return true;
        }
        i += 1;
    }
    false
}

impl Sandbox {
    /// Release what the registry holds for a container: its mount records,
    /// the storages those mounts used, and the container entry itself.
    /// Shared by both removal paths once the runtime destroy is done;
    /// never fails, and entries that are already gone stay gone.
    pub fn remove_container_resources(&mut self, cid: &String) -> (r: Result<(), ErrorKind>)
        requires
            old(self).wf(),
        ensures
            final(self).wf(),
            r is Ok,
            container_index(final(self).containers@, cid@) is None,
            mount_index(final(self).container_mounts@, cid@) is None,
            match container_index(old(self).containers@, cid@) {
                None => final(self).containers == old(self).containers,
                Some(ci) => final(self).containers@ == old(self).containers@.remove(ci),
            },
            match mount_index(old(self).container_mounts@, cid@) {
                None => final(self).container_mounts == old(self).container_mounts
                    && final(self).storages == old(self).storages,
                Some(mi) => final(self).container_mounts@ == old(self).container_mounts@.remove(mi)
                    && final(self).storages@ == drop_listed(
                    old(self).storages@,
                    old(self).container_mounts@[mi].mounts@,
                ),
            },
            final(self).id == old(self).id,
            final(self).hostname == old(self).hostname,
            final(self).running == old(self).running,
            final(self).mounts == old(self).mounts,
            final(self).images == old(self).images,
            final(self).hooks == old(self).hooks,
            final(self).shared_ipcns == old(self).shared_ipcns,
            final(self).shared_utsns == old(self).shared_utsns,
            final(self).sandbox_pidns == old(self).sandbox_pidns,
            final(self).event_tx_open == old(self).event_tx_open,
            final(self).sender_present == old(self).sender_present,
            final(self).watcher_states == old(self).watcher_states,
    {
        let ghost pre = *self;
        proof {
            lemma_mount_index(self.container_mounts@, cid@);
        }
        match find_mounts(&self.container_mounts, cid) {
            None => {
            }
            Some(mi) => {
                let rec = self.container_mounts.remove(mi);
                let mut kept: Vec<String> = Vec::new();
                let mut i: usize = 0;
                while i < self.storages.len()
                    invariant
                        0 <= i <= self.storages@.len(),
                        self.storages == pre.storages,
                        kept@ == drop_listed(self.storages@.take(i as int), rec.mounts@),
                    decreases self.storages@.len() - i,
                {
                    proof {
                        assert(self.storages@.take(i + 1).drop_last() =~= self.storages@.take(
                            i as int,
                        ));
                        assert(self.storages@.take(i + 1).last() == self.storages@[i as int]);
                    }
                    if !str_listed(&rec.mounts, &self.storages[i]) {
                        let s = self.storages[i].clone();
                        kept.push(s);
                    }
                    i += 1;
                }
                proof {
                    assert(self.storages@.take(self.storages@.len() as int) =~= self.storages@);
                }
                self.storages = kept;
                proof {
                    // mount records stay uniquely keyed after the removal
                    assert forall|a: int, b: int|
                        0 <= a < b < self.container_mounts@.len() implies #[trigger] self.container_mounts@[a].cid@
                        != #[trigger] self.container_mounts@[b].cid@ by {
                        let m0 = pre.container_mounts@;
                        let m1 = self.container_mounts@;
                        assert(m1 == m0.remove(mi as int));
                        assert(m1[a] == (if a < mi as int {
                            m0[a]
                        } else {
                            m0[a + 1]
                        }));
                        assert(m1[b] == (if b < mi as int {
                            m0[b]
                        } else {
                            m0[b + 1]
                        }));
                    }
                    lemma_mount_index(self.container_mounts@, cid@);
                    assert forall|j: int|
                        0 <= j < self.container_mounts@.len() implies #[trigger] self.container_mounts@[j].cid@
                        != cid@ by {
                        let m0 = pre.container_mounts@;
                        assert(self.container_mounts@[j] == (if j < mi as int {
                            m0[j]
                        } else {
                            m0[j + 1]
                        }));
                        lemma_mount_index(m0, cid@);
                    }
                }
            }
        }
        let ghost mid = *self;
        proof {
            lemma_container_index(self.containers@, cid@);
        }
        match self.find_container(cid) {
            None => {
            }
            Some(ci) => {
                self.containers.remove(ci);
                proof {
                    let cs0 = mid.containers@;
                    let cs1 = self.containers@;
                    assert(cs1 == cs0.remove(ci as int));
                    assert forall|j: int|
                        0 <= j < cs1.len() implies #[trigger] cs1[j] == (if j < ci as int {
                        cs0[j]
                    } else {
                        cs0[j + 1]
                    }) by {}
                    lemma_container_index(cs0, cid@);
                    assert forall|j: int|
                        0 <= j < cs1.len() implies (#[trigger] cs1[j]).id@ != cid@ by {}
                    lemma_container_index(cs1, cid@);
                }
            }
        }
        proof {
            if container_index(self.containers@, cid@) is Some {
                lemma_container_index(self.containers@, cid@);
            }
            if mount_index(self.container_mounts@, cid@) is Some {
                lemma_mount_index(self.container_mounts@, cid@);
            }
        }
        Ok(())
    }

    /// The registry side of sandbox destruction: close the OOM event
    /// channel so pending long-polls complete, and consume the one-shot
    /// shutdown signal. Destroy is single-use — a second call finds the
    /// signal gone and fails.
    pub fn destroy_sandbox_step(&mut self) -> (r: Result<(), ErrorKind>)
        requires
            old(self).wf(),
        ensures
            final(self).wf(),
            final(self).event_tx_open == false,
            final(self).sender_present == false,
            r is Ok <==> old(self).sender_present,
            !old(self).sender_present ==> r == Err::<(), ErrorKind>(ErrorKind::Internal),
            final(self).containers == old(self).containers,
            final(self).container_mounts == old(self).container_mounts,
            final(self).storages == old(self).storages,
            final(self).mounts == old(self).mounts,
            final(self).images == old(self).images,
            final(self).hooks == old(self).hooks,
            final(self).id == old(self).id,
            final(self).hostname == old(self).hostname,
            final(self).running == old(self).running,
            final(self).shared_ipcns == old(self).shared_ipcns,
            final(self).shared_utsns == old(self).shared_utsns,
            final(self).sandbox_pidns == old(self).sandbox_pidns,
            final(self).watcher_states == old(self).watcher_states,
    {
        self.event_tx_open = false;
        if self.sender_present {
            self.sender_present = false;
            Ok(())
        } else {
            Err(ErrorKind::Internal)
        }
    }
}

} // verus!
