//! Container and sandbox lifecycle steps performed under the registry
//! lock: the spec rewrites done during creation (shared namespaces, guest
//! hooks, mount records), the start-time decision about the OOM monitor,
//! the cgroup precondition shared by freeze and pid enumeration, and the
//! sandbox-wide setup and long-poll answers.

use vstd::prelude::*;
use vstd::string::StringExecFns;
use crate::errors::ErrorKind;
use crate::ocispec::{clone_strings, Hook, Hooks, Linux, LinuxNamespace, Spec};
use crate::registry::{
    container_index, lemma_container_index, lemma_mount_index, find_mounts, mount_index,
    MountList, Sandbox,
};
use crate::text::str_eq;

verus! {

pub const NSTYPEIPC: &'static str = "ipc";

pub const NSTYPEUTS: &'static str = "uts";

pub const NSTYPEPID: &'static str = "pid";

/// The path a namespace entry ends up with: IPC and UTS namespaces are
/// rewritten to the sandbox's shared ones unconditionally, others keep
/// their path.
pub open spec fn ns_target_path(ns: LinuxNamespace, s: Sandbox) -> Seq<char> {
    if ns.ns_type@ == NSTYPEIPC@ {
        s.shared_ipcns@
    } else if ns.ns_type@ == NSTYPEUTS@ {
        s.shared_utsns@
    } else {
        ns.path@
    }
}

/// The namespace list `b` is `a` with every entry's path rewritten to its
/// target.
pub open spec fn ns_rewritten(a: Seq<LinuxNamespace>, b: Seq<LinuxNamespace>, s: Sandbox) -> bool {
    &&& b.len() == a.len()
    &&& forall|i: int|
        0 <= i < a.len() ==> #[trigger] b[i].ns_type@ == a[i].ns_type@ && b[i].path@
            == ns_target_path(a[i], s)
}

/// Rewrite a container spec's namespaces for the sandbox: IPC and UTS
/// paths point at the shared namespaces, and a PID namespace entry is
/// appended — with the sandbox's shared PID path when `sandbox_pidns`
/// asked for it (an error if none exists), empty otherwise so the runtime
/// creates a fresh one. A spec without a Linux section is rejected.
pub fn update_container_namespaces(sandbox: &Sandbox, spec: &mut Spec, sandbox_pidns: bool) -> (r:
    Result<(), ErrorKind>)
    ensures
        final(spec).root == old(spec).root,
        final(spec).process == old(spec).process,
        final(spec).hooks == old(spec).hooks,
        final(spec).annotations == old(spec).annotations,
        match old(spec).linux {
            None => r == Err::<(), ErrorKind>(ErrorKind::Internal) && final(spec).linux is None,
            Some(lx0) => (final(spec).linux matches Some(lx1)) && (if sandbox_pidns
                && sandbox.sandbox_pidns is None {
                r == Err::<(), ErrorKind>(ErrorKind::Internal) && ns_rewritten(
                    lx0.namespaces@,
                    (final(spec).linux)->0.namespaces@,
                    *sandbox,
                )
            } else {
                let ns1 = (final(spec).linux)->0.namespaces@;
                &&& r is Ok
                &&& ns1.len() == lx0.namespaces@.len() + 1
                &&& ns_rewritten(
                    lx0.namespaces@,
                    ns1.take(lx0.namespaces@.len() as int),
                    *sandbox,
                )
                &&& ns1.last().ns_type@ == NSTYPEPID@
                &&& ns1.last().path@ == (if sandbox_pidns {
                    sandbox.sandbox_pidns->0@
                } else {
                    Seq::<char>::empty()
                })
            }),
        },
{
    let lx = match spec.linux.take() {
        Some(l) => l,
        None => {
            return Err(ErrorKind::Internal);
        }
    };
    let mut out: Vec<LinuxNamespace> = Vec::new();
    let mut i: usize = 0;
    while i < lx.namespaces.len()
        invariant
            0 <= i <= lx.namespaces@.len(),
            out@.len() == i,
            forall|k: int| #![trigger out@[k]]
                0 <= k < i ==> out@[k].ns_type@ == lx.namespaces@[k].ns_type@ && out@[k].path@
                    == ns_target_path(lx.namespaces@[k], *sandbox),
        decreases lx.namespaces@.len() - i,
    {
        let t = lx.namespaces[i].ns_type.clone();
        let pth = if str_eq(lx.namespaces[i].ns_type.as_str(), NSTYPEIPC) {
            sandbox.shared_ipcns.clone()
        } else if str_eq(lx.namespaces[i].ns_type.as_str(), NSTYPEUTS) {
            sandbox.shared_utsns.clone()
        } else {
            lx.namespaces[i].path.clone()
        };
        out.push(LinuxNamespace { ns_type: t, path: pth });
        i += 1;
    }
    let pid_path = if sandbox_pidns {
        match &sandbox.sandbox_pidns {
            Some(p) => p.clone(),
            None => {
                spec.linux = Some(Linux { namespaces: out });
                return Err(ErrorKind::Internal);
            }
        }
    } else {
        String::new()
    };
    out.push(LinuxNamespace { ns_type: NSTYPEPID.to_owned(), path: pid_path });
    spec.linux = Some(Linux { namespaces: out });
    Ok(())
}

/// Two hooks naming the same program with the same arguments.
pub open spec fn hook_views_eq(a: Hook, b: Hook) -> bool {
    &&& a.path@ == b.path@
    &&& a.args@ == b.args@
}

/// `out` is `base` with copies of `extra` appended.
pub open spec fn hooks_appended(base: Seq<Hook>, extra: Seq<Hook>, out: Seq<Hook>) -> bool {
    &&& out.len() == base.len() + extra.len()
    &&& forall|i: int| 0 <= i < base.len() ==> out[i] == base[i]
    &&& forall|i: int| 0 <= i < extra.len() ==> hook_views_eq(#[trigger] out[base.len() + i], extra[i])
}

fn clone_hook(h: &Hook) -> (r: Hook)
    ensures
        hook_views_eq(r, *h),
{
    Hook { path: h.path.clone(), args: clone_strings(&h.args) }
}

fn append_hook_list(dst: &mut Vec<Hook>, src: &Vec<Hook>)
    ensures
        hooks_appended(old(dst)@, src@, final(dst)@),
{
    let mut i: usize = 0;
    while i < src.len()
        invariant
            0 <= i <= src@.len(),
            dst@.len() == old(dst)@.len() + i,
            forall|k: int| 0 <= k < old(dst)@.len() ==> #[trigger] dst@[k] == old(dst)@[k],
            forall|k: int|
                0 <= k < i ==> hook_views_eq(#[trigger] dst@[old(dst)@.len() + k], src@[k]),
        decreases src@.len() - i,
    {
        let h = clone_hook(&src[i]);
        dst.push(h);
        i += 1;
    }
}

/// Append the sandbox's guest hooks to a container spec's hook lists,
/// stage by stage; a sandbox without hooks leaves the spec alone. Never
/// fails.
pub fn append_guest_hooks(s: &Sandbox, oci: &mut Spec) -> (r: Result<(), ErrorKind>)
    ensures
        r is Ok,
        final(oci).root == old(oci).root,
        final(oci).process == old(oci).process,
        final(oci).linux == old(oci).linux,
        final(oci).annotations == old(oci).annotations,
        match s.hooks {
            None => final(oci).hooks == old(oci).hooks,
            Some(gh) => final(oci).hooks matches Some(h1) && ({
                let pre0 = match old(oci).hooks {
                    Some(h0) => h0.prestart@,
                    None => Seq::<Hook>::empty(),
                };
                let start0 = match old(oci).hooks {
                    Some(h0) => h0.poststart@,
                    None => Seq::<Hook>::empty(),
                };
                let stop0 = match old(oci).hooks {
                    Some(h0) => h0.poststop@,
                    None => Seq::<Hook>::empty(),
                };
                &&& hooks_appended(pre0, gh.prestart@, h1.prestart@)
                &&& hooks_appended(start0, gh.poststart@, h1.poststart@)
                &&& hooks_appended(stop0, gh.poststop@, h1.poststop@)
            }),
        },
{
    match &s.hooks {
        None => Ok(()),
        Some(gh) => {
            let mut hooks = match oci.hooks.take() {
                Some(h) => h,
                None => Hooks { prestart: Vec::new(), poststart: Vec::new(), poststop: Vec::new() },
            };
            append_hook_list(&mut hooks.prestart, &gh.prestart);
            append_hook_list(&mut hooks.poststart, &gh.poststart);
            append_hook_list(&mut hooks.poststop, &gh.poststop);
            oci.hooks = Some(hooks);
            Ok(())
        }
    }
}

/// The answer handed to one OOM long-poll: the container that hit its
/// memory limit, or an internal failure once the channel has closed.
pub fn oom_event_response(ev: Option<String>) -> (r: Result<String, ErrorKind>)
    ensures
        match ev {
            Some(c) => r == Ok::<String, ErrorKind>(c),
            None => r == Err::<String, ErrorKind>(ErrorKind::Internal),
        },
{
    match ev {
        Some(c) => Ok(c),
        None => Err(ErrorKind::Internal),
    }
}

impl Sandbox {
    /// Record the mount IDs a container's storages produced, replacing any
    /// earlier record under the same container ID.
    pub fn set_container_mounts(&mut self, cid: &String, mounts: Vec<String>)
        requires
            old(self).wf(),
        ensures
            final(self).wf(),
            final(self).containers == old(self).containers,
            final(self).storages == old(self).storages,
            final(self).watcher_states == old(self).watcher_states,
            final(self).id == old(self).id,
            final(self).hostname == old(self).hostname,
            final(self).running == old(self).running,
            final(self).mounts == old(self).mounts,
            final(self).images == old(self).images,
            final(self).hooks == old(self).hooks,
            final(self).shared_ipcns == old(self).shared_ipcns,
            final(self).shared_utsns == old(self).shared_utsns,
            final(self).sandbox_pidns == old(self).sandbox_pidns,
            final(self).event_tx_open == old(self).event_tx_open,
            final(self).sender_present == old(self).sender_present,
            match mount_index(old(self).container_mounts@, cid@) {
                Some(mi) => {
                    &&& final(self).container_mounts@.len() == old(self).container_mounts@.len()
                    &&& forall|j: int|
                        0 <= j < old(self).container_mounts@.len() && j != mi
                            ==> #[trigger] final(self).container_mounts@[j] == old(
                            self,
                        ).container_mounts@[j]
                    &&& final(self).container_mounts@[mi].cid@ == cid@
                    &&& final(self).container_mounts@[mi].mounts == mounts
                },
                None => {
                    &&& final(self).container_mounts@.len() == old(self).container_mounts@.len()
                        + 1
                    &&& forall|j: int|
                        0 <= j < old(self).container_mounts@.len()
                            ==> #[trigger] final(self).container_mounts@[j] == old(
                            self,
                        ).container_mounts@[j]
                    &&& final(self).container_mounts@.last().cid@ == cid@
                    &&& final(self).container_mounts@.last().mounts == mounts
                },
            },
    {
        proof {
            lemma_mount_index(self.container_mounts@, cid@);
        }
        match find_mounts(&self.container_mounts, cid) {
            Some(mi) => {
                let c = cid.clone();
                self.container_mounts[mi] = MountList { cid: c, mounts };
            }
            None => {
                let c = cid.clone();
                self.container_mounts.push(MountList { cid: c, mounts });
            }
        }
    }

    /// The sandbox-wide setup performed by sandbox creation: record the
    /// hostname, mark the sandbox running, and take the caller's sandbox
    /// ID when it provides one.
    pub fn setup_sandbox(&mut self, hostname: String, sandbox_id: String)
        requires
            old(self).wf(),
        ensures
            final(self).wf(),
            final(self).hostname == hostname,
            final(self).running == true,
            final(self).id == (if sandbox_id@.len() > 0 {
                sandbox_id
            } else {
                old(self).id
            }),
            final(self).containers == old(self).containers,
            final(self).container_mounts == old(self).container_mounts,
            final(self).storages == old(self).storages,
            final(self).mounts == old(self).mounts,
            final(self).images == old(self).images,
            final(self).hooks == old(self).hooks,
            final(self).shared_ipcns == old(self).shared_ipcns,
            final(self).shared_utsns == old(self).shared_utsns,
            final(self).sandbox_pidns == old(self).sandbox_pidns,
            final(self).event_tx_open == old(self).event_tx_open,
            final(self).sender_present == old(self).sender_present,
            final(self).watcher_states == old(self).watcher_states,
    {
        self.hostname = hostname;
        self.running = true;
        if !sandbox_id.as_str().is_empty() {
            self.id = sandbox_id;
        }
    }

    /// The start-container decision: whether to attach an OOM monitor
    /// after the runtime starts the init process — only for containers
    /// other than the sandbox's top-level one, and only with a cgroup
    /// manager to watch.
    pub fn start_plan(&self, cid: &String) -> (r: Result<bool, ErrorKind>)
        ensures
            match container_index(self.containers@, cid@) {
                None => r == Err::<bool, ErrorKind>(ErrorKind::InvalidArgument),
                Some(ci) => r == Ok::<bool, ErrorKind>(
                    self.id@ != cid@ && self.containers@[ci].has_cgroup_manager,
                ),
            },
    {
        let ci = match self.find_container(cid) {
            Some(ci) => ci,
            None => {
                return Err(ErrorKind::InvalidArgument);
            }
        };
        proof {
            lemma_container_index(self.containers@, cid@);
        }
        let top_level = str_eq(self.id.as_str(), cid.as_str());
        Ok(!top_level && self.containers[ci].has_cgroup_manager)
    }

    /// The shared precondition of cgroup freezing and pid enumeration: the
    /// container must exist and carry a cgroup manager.
    pub fn cgroup_manager_check(&self, cid: &String) -> (r: Result<(), ErrorKind>)
        ensures
            match container_index(self.containers@, cid@) {
                None => r == Err::<(), ErrorKind>(ErrorKind::InvalidArgument),
                Some(ci) => if self.containers@[ci].has_cgroup_manager {
                    r is Ok
                } else {
                    r == Err::<(), ErrorKind>(ErrorKind::Internal)
                },
            },
    {
        let ci = match self.find_container(cid) {
            Some(ci) => ci,
            None => {
                return Err(ErrorKind::InvalidArgument);
            }
        };
        proof {
            lemma_container_index(self.containers@, cid@);
        }
        if self.containers[ci].has_cgroup_manager {
            Ok(())
        } else {
            Err(ErrorKind::Internal)
        }
    }
}

} // verus!
