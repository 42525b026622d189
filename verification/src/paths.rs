//! Guest-side path construction for container bundles, and the base-path
//! confinement check for file copies.
//!
//! Every container's on-disk state lives under one base directory:
//! `/run/kata-containers/<container id>/` holds the bundle, with
//! `config.json` and the bind-mounted `rootfs` inside it.

use vstd::prelude::*;
use vstd::string::StringExecFns;
use crate::errors::ErrorKind;
use crate::text::chars_of;

verus! {

pub const CONTAINER_BASE: &'static str = "/run/kata-containers";

/// Joining `b` onto path `a`: an absolute `b` replaces `a`, otherwise one
/// separator stands between them.
pub open spec fn join_spec(a: Seq<char>, b: Seq<char>) -> Seq<char> {
    if b.len() > 0 && b[0] == '/' {
        b
    } else if a.len() == 0 {
        b
    } else if a.last() == '/' {
        a + b
    } else {
        a + seq!['/'] + b
    }
}

/// Join one path component onto a base path.
pub fn path_join(a: &str, b: &str) -> (r: String)
    ensures
        r@ == join_spec(a@, b@),
{
    let vb = chars_of(b);
    if vb.len() > 0 && vb[0] == '/' {
        return b.to_owned();
    }
    let va = chars_of(a);
    if va.len() == 0 {
        return b.to_owned();
    }
    if va[va.len() - 1] == '/' {
        proof {
            assert(va@.last() == a@.last());
        }
        a.to_owned().concat(b)
    } else {
        proof {
            reveal_strlit("/");
            assert("/"@ =~= seq!['/']);
            assert((a@ + "/"@ + b@) =~= (a@ + seq!['/'] + b@));
        }
        a.to_owned().concat("/").concat(b)
    }
}

/// Whether `p` names the base directory itself or something beneath it:
/// `p` begins with the base directory, and anything further is a deeper
/// component, never a mere longer name.
pub open spec fn within_base(p: Seq<char>) -> bool {
    &&& p.len() >= CONTAINER_BASE@.len()
    &&& (forall|i: int| 0 <= i < CONTAINER_BASE@.len() ==> p[i] == CONTAINER_BASE@[i])
    &&& (p.len() > CONTAINER_BASE@.len() ==> p[CONTAINER_BASE@.len() as int] == '/')
}

/// Reject a file-copy destination that escapes the base directory.
pub fn copy_dest_check(path: &str) -> (r: Result<(), ErrorKind>)
    ensures
        r is Ok <==> within_base(path@),
        r is Err ==> r->Err_0 == ErrorKind::InvalidArgument,
{
    let base = chars_of(CONTAINER_BASE);
    let v = chars_of(path);
    if v.len() < base.len() {
        return Err(ErrorKind::InvalidArgument);
    }
    let mut i: usize = 0;
    while i < base.len()
        invariant
            0 <= i <= base@.len() <= v@.len(),
            base@ == CONTAINER_BASE@,
            v@ == path@,
            forall|k: int| 0 <= k < i ==> v@[k] == base@[k],
        decreases base@.len() - i,
    {
        if v[i] != base[i] {
            return Err(ErrorKind::InvalidArgument);
        }
        i += 1;
    }
    if v.len() == base.len() || v[base.len()] == '/' {
        Ok(())
    } else {
        Err(ErrorKind::InvalidArgument)
    }
}

/// The bundle directory of a container.
pub fn bundle_path(cid: &str) -> (r: String)
    ensures
        r@ == join_spec(CONTAINER_BASE@, cid@),
{
    path_join(CONTAINER_BASE, cid)
}

/// The bundle's serialized spec file.
pub fn config_path(cid: &str) -> (r: String)
    ensures
        r@ == join_spec(join_spec(CONTAINER_BASE@, cid@), "config.json"@),
{
    let b = bundle_path(cid);
    path_join(b.as_str(), "config.json")
}

/// The bundle's bind-mounted root file system.
pub fn rootfs_path(cid: &str) -> (r: String)
    ensures
        r@ == join_spec(join_spec(CONTAINER_BASE@, cid@), "rootfs"@),
{
    let b = bundle_path(cid);
    path_join(b.as_str(), "rootfs")
}

} // verus!
