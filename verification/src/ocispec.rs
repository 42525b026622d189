//! A plain model of the parts of an OCI runtime specification that the
//! agent rewrites before handing a container to the runtime: root path,
//! process arguments and environment, namespaces, hooks and annotations.
//! Serialization and everything the runtime itself consumes stay outside.

use vstd::prelude::*;
use crate::errors::ErrorKind;
use crate::paths::{join_spec, path_join, CONTAINER_BASE};

verus! {

/// One guest hook.
#[derive(Clone, Debug, PartialEq, Eq)]
pub struct Hook {
    pub path: String,
    pub args: Vec<String>,
}

/// The hook lists of a spec, by lifecycle stage.
#[derive(Clone, Debug, PartialEq, Eq)]
pub struct Hooks {
    pub prestart: Vec<Hook>,
    pub poststart: Vec<Hook>,
    pub poststop: Vec<Hook>,
}

/// The root file system of a spec.
#[derive(Clone, Debug, PartialEq, Eq)]
pub struct Root {
    pub path: String,
    pub readonly: bool,
}

/// The process description of a spec.
#[derive(Clone, Debug, PartialEq, Eq)]
pub struct OciProcess {
    pub args: Vec<String>,
    pub cwd: String,
    pub env: Vec<String>,
}

/// One namespace entry of a spec.
#[derive(Clone, Debug, PartialEq, Eq)]
pub struct LinuxNamespace {
    pub ns_type: String,
    pub path: String,
}

/// The Linux-specific part of a spec.
#[derive(Clone, Debug, PartialEq, Eq)]
pub struct Linux {
    pub namespaces: Vec<LinuxNamespace>,
}

/// One annotation.
#[derive(Clone, Debug, PartialEq, Eq)]
pub struct KeyVal {
    pub key: String,
    pub val: String,
}

/// The container specification, reduced to what the agent reads or
/// rewrites.
#[derive(Clone, Debug, PartialEq, Eq)]
pub struct Spec {
    pub root: Option<Root>,
    pub process: Option<OciProcess>,
    pub linux: Option<Linux>,
    pub hooks: Option<Hooks>,
    pub annotations: Vec<KeyVal>,
}

/// What a process merge leaves as arguments: the source's only when the
/// target had none and the source has some.
pub open spec fn merged_args(t: Seq<String>, s: Seq<String>) -> Seq<String> {
    if t.len() == 0 && s.len() > 0 {
        s
    } else {
        t
    }
}

/// What a process merge leaves as working directory.
pub open spec fn merged_cwd(t: Seq<char>, s: Seq<char>) -> Seq<char> {
    if t.len() == 0 && s.len() > 0 {
        s
    } else {
        t
    }
}

pub(crate) fn clone_strings(src: &Vec<String>) -> (r: Vec<String>)
    ensures
        r@ == src@,
{
    let mut r: Vec<String> = Vec::new();
    let mut i: usize = 0;
    while i < src.len()
        invariant
            0 <= i <= src@.len(),
            r@ == src@.take(i as int),
        decreases src@.len() - i,
    {
        r.push(src[i].clone());
        i += 1;
    }
    proof {
        assert(src@.take(src@.len() as int) =~= src@);
    }
    r
}

/// Partially merge an image bundle's process description into a container
/// creation request's one: arguments and working directory are filled only
/// when empty, the environment is always appended.
pub fn merge_oci_process(target: &mut OciProcess, source: &OciProcess)
    ensures
        final(target).args@ == merged_args(old(target).args@, source.args@),
        final(target).cwd@ == merged_cwd(old(target).cwd@, source.cwd@),
        final(target).env@ == old(target).env@ + source.env@,
{
    if target.args.len() == 0 && source.args.len() > 0 {
        target.args = clone_strings(&source.args);
    }
    if target.cwd.as_str().is_empty() && !source.cwd.as_str().is_empty() {
        target.cwd = source.cwd.clone();
    }
    let mut extra = clone_strings(&source.env);
    target.env.append(&mut extra);
}

/// The root path a container gains from an image bundle: the image's root,
/// rebased under the container's bundle directory.
pub open spec fn rebased_root(cid: Seq<char>, image_root: Seq<char>) -> Seq<char> {
    join_spec(join_spec(CONTAINER_BASE@, cid), image_root)
}

/// Merge an image bundle's spec into a container creation spec: the root
/// path is rebased under the container's bundle directory (its read-only
/// flag untouched), and the process descriptions are merged. Either side
/// without the matching part is left alone.
pub fn merge_image_spec(container: &mut Spec, image: &Spec, cid: &str)
    ensures
        final(container).linux == old(container).linux,
        final(container).hooks == old(container).hooks,
        final(container).annotations == old(container).annotations,
        match (old(container).root, image.root) {
            (Some(cr), Some(ir)) => {
                &&& final(container).root is Some
                &&& final(container).root->0.path@ == rebased_root(cid@, ir.path@)
                &&& final(container).root->0.readonly == cr.readonly
            },
            _ => final(container).root == old(container).root,
        },
        match (old(container).process, image.process) {
            (Some(cp), Some(ip)) => {
                &&& final(container).process is Some
                &&& final(container).process->0.args@ == merged_args(cp.args@, ip.args@)
                &&& final(container).process->0.cwd@ == merged_cwd(cp.cwd@, ip.cwd@)
                &&& final(container).process->0.env@ == cp.env@ + ip.env@
            },
            _ => final(container).process == old(container).process,
        },
{
    match (&mut container.root, &image.root) {
        (Some(cr), Some(ir)) => {
            let bundle = path_join(CONTAINER_BASE, cid);
            cr.path = path_join(bundle.as_str(), ir.path.as_str());
        }
        _ => {}
    }
    match (&mut container.process, &image.process) {
        (Some(cp), Some(ip)) => {
            merge_oci_process(cp, ip);
        }
        _ => {}
    }
}

/// Where a container's bundle lives on disk, and which directory the
/// runtime must bind-mount as its root file system.
#[derive(Clone, Debug, PartialEq, Eq)]
pub struct BundlePaths {
    pub bundle: String,
    pub config: String,
    pub rootfs: String,
    /// The root path the request carried, to be bind-mounted at `rootfs`.
    pub source_root: String,
}

/// Plan the on-disk bundle of a container: compute the bundle, config and
/// rootfs paths and point the spec's root at the bundle's rootfs, keeping
/// its read-only flag. A spec without a root is rejected and left alone.
pub fn bundle_plan(cid: &str, spec: &mut Spec) -> (r: Result<BundlePaths, ErrorKind>)
    ensures
        final(spec).process == old(spec).process,
        final(spec).linux == old(spec).linux,
        final(spec).hooks == old(spec).hooks,
        final(spec).annotations == old(spec).annotations,
        match old(spec).root {
            None => r == Err::<BundlePaths, ErrorKind>(ErrorKind::InvalidArgument)
                && final(spec).root is None,
            Some(r0) => (r matches Ok(bp) && {
                let bundle = join_spec(CONTAINER_BASE@, cid@);
                &&& bp.bundle@ == bundle
                &&& bp.config@ == join_spec(bundle, "config.json"@)
                &&& bp.rootfs@ == join_spec(bundle, "rootfs"@)
                &&& bp.source_root@ == r0.path@
                &&& final(spec).root matches Some(r1) && r1.path@ == bp.rootfs@ && r1.readonly
                    == r0.readonly
            }),
        },
{
    let source_root = match &spec.root {
        Some(r0) => r0.path.clone(),
        None => {
            return Err(ErrorKind::InvalidArgument);
        }
    };
    let readonly = match &spec.root {
        Some(r0) => r0.readonly,
        None => false,
    };
    let bundle = path_join(CONTAINER_BASE, cid);
    let config = path_join(bundle.as_str(), "config.json");
    let rootfs = path_join(bundle.as_str(), "rootfs");
    spec.root = Some(Root { path: rootfs.clone(), readonly });
    Ok(BundlePaths { bundle, config, rootfs, source_root })
}

/// The value under the first occurrence of a key in an association list.
pub open spec fn assoc_val(list: Seq<KeyVal>, key: Seq<char>) -> Option<Seq<char>>
    decreases list.len(),
{
    if list.len() == 0 {
        None
    } else if list[0].key@ == key {
        Some(list[0].val@)
    } else {
        assoc_val(list.drop_first(), key)
    }
}

/// Look a key up in an annotation or image list.
pub fn lookup_val(list: &Vec<KeyVal>, key: &String) -> (r: Option<String>)
    ensures
        r is Some <==> assoc_val(list@, key@) is Some,
        r is Some ==> Some(r->0@) == assoc_val(list@, key@),
{
    proof {
        assert(list@.skip(0) =~= list@);
    }
    let mut i: usize = 0;
    while i < list.len()
        invariant
            0 <= i <= list@.len(),
            assoc_val(list@, key@) == assoc_val(list@.skip(i as int), key@),
        decreases list@.len() - i,
    {
        proof {
            assert(list@.skip(i as int)[0] == list@[i as int]);
            assert(list@.skip(i as int).drop_first() =~= list@.skip(i + 1));
        }
        if list[i].key == *key {
            return Some(list[i].val.clone());
        }
        i += 1;
    }
    proof {
        assert(list@.skip(list@.len() as int) =~= Seq::<KeyVal>::empty());
    }
    None
}

/// The annotation that names the image whose bundle is merged into a
/// container creation request.
pub const IMAGE_NAME_ANNOTATION: &'static str = "io.kubernetes.cri.image-name";

/// Resolve the container whose on-disk bundle serves as the image bundle
/// for a creation request: the request's image-name annotation, looked up
/// in the sandbox's image table.
pub fn image_bundle_container(annotations: &Vec<KeyVal>, images: &Vec<KeyVal>) -> (r: Option<
    String,
>)
    ensures
        match assoc_val(annotations@, IMAGE_NAME_ANNOTATION@) {
            None => r is None,
            Some(img) => match assoc_val(images@, img) {
                None => r is None,
                Some(cid) => r is Some && r->0@ == cid,
            },
        },
{
    let key = IMAGE_NAME_ANNOTATION.to_owned();
    match lookup_val(annotations, &key) {
        None => None,
        Some(img) => lookup_val(images, &img),
    }
}

} // verus!
