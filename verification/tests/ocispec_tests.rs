use agent_core::lifecycle::{append_guest_hooks, update_container_namespaces};
use agent_core::ocispec::{
    bundle_plan, image_bundle_container, merge_image_spec, merge_oci_process, Hook, Hooks, KeyVal,
    Linux, LinuxNamespace, OciProcess, Root, Spec,
};
use agent_core::paths::{copy_dest_check, path_join};
use agent_core::registry::Sandbox;

fn empty_spec() -> Spec {
    Spec { root: None, process: None, linux: None, hooks: None, annotations: Vec::new() }
}

#[test]
fn test_append_guest_hooks() {
    let mut s = Sandbox::new();
    s.hooks = Some(Hooks {
        prestart: vec![Hook { path: "foo".to_string(), args: Vec::new() }],
        poststart: Vec::new(),
        poststop: Vec::new(),
    });
    let mut oci = empty_spec();
    append_guest_hooks(&s, &mut oci).unwrap();
    assert_eq!(s.hooks, oci.hooks);
}

#[test]
fn guest_hooks_are_appended_after_existing_ones() {
    let mut s = Sandbox::new();
    s.hooks = Some(Hooks {
        prestart: vec![Hook { path: "guest".to_string(), args: vec!["-a".to_string()] }],
        poststart: Vec::new(),
        poststop: vec![Hook { path: "cleanup".to_string(), args: Vec::new() }],
    });
    let mut oci = empty_spec();
    oci.hooks = Some(Hooks {
        prestart: vec![Hook { path: "own".to_string(), args: Vec::new() }],
        poststart: Vec::new(),
        poststop: Vec::new(),
    });
    append_guest_hooks(&s, &mut oci).unwrap();
    let h = oci.hooks.unwrap();
    assert_eq!(h.prestart.len(), 2);
    assert_eq!(h.prestart[0].path, "own");
    assert_eq!(h.prestart[1].path, "guest");
    assert_eq!(h.poststop.len(), 1);
    assert_eq!(h.poststop[0].path, "cleanup");
}

#[test]
fn process_merge_fills_only_empty_fields_and_appends_env() {
    let mut target = OciProcess {
        args: Vec::new(),
        cwd: String::new(),
        env: vec!["A=1".to_string()],
    };
    let source = OciProcess {
        args: vec!["/bin/sh".to_string()],
        cwd: "/work".to_string(),
        env: vec!["B=2".to_string()],
    };
    merge_oci_process(&mut target, &source);
    assert_eq!(target.args, vec!["/bin/sh".to_string()]);
    assert_eq!(target.cwd, "/work");
    assert_eq!(target.env, vec!["A=1".to_string(), "B=2".to_string()]);

    let mut keeps = OciProcess {
        args: vec!["/bin/top".to_string()],
        cwd: "/here".to_string(),
        env: Vec::new(),
    };
    merge_oci_process(&mut keeps, &source);
    assert_eq!(keeps.args, vec!["/bin/top".to_string()]);
    assert_eq!(keeps.cwd, "/here");
    assert_eq!(keeps.env, vec!["B=2".to_string()]);
}

#[test]
fn image_spec_merge_rebases_the_root_path() {
    let mut container = empty_spec();
    container.root = Some(Root { path: "/ignored".to_string(), readonly: true });
    let mut image = empty_spec();
    image.root = Some(Root { path: "rootfs".to_string(), readonly: false });

    merge_image_spec(&mut container, &image, "img1");
    let root = container.root.unwrap();
    assert_eq!(root.path, "/run/kata-containers/img1/rootfs");
    assert!(root.readonly, "the container's read-only flag is kept");
}

#[test]
fn image_bundle_resolution_chains_annotation_and_image_table() {
    let annotations = vec![KeyVal {
        key: "io.kubernetes.cri.image-name".to_string(),
        val: "alpine".to_string(),
    }];
    let images = vec![KeyVal { key: "alpine".to_string(), val: "imgctr".to_string() }];
    assert_eq!(image_bundle_container(&annotations, &images).unwrap(), "imgctr");

    assert!(image_bundle_container(&Vec::new(), &images).is_none());
    assert!(image_bundle_container(&annotations, &Vec::new()).is_none());
}

#[test]
fn bundle_plan_computes_paths_and_rebases_the_root() {
    let mut spec = empty_spec();
    spec.root = Some(Root { path: "/incoming/root".to_string(), readonly: false });
    let bp = bundle_plan("ctr9", &mut spec).unwrap();
    assert_eq!(bp.bundle, "/run/kata-containers/ctr9");
    assert_eq!(bp.config, "/run/kata-containers/ctr9/config.json");
    assert_eq!(bp.rootfs, "/run/kata-containers/ctr9/rootfs");
    assert_eq!(bp.source_root, "/incoming/root");
    assert_eq!(spec.root.unwrap().path, "/run/kata-containers/ctr9/rootfs");

    let mut rootless = empty_spec();
    assert!(bundle_plan("ctr9", &mut rootless).is_err());
}

#[test]
fn namespaces_are_rewritten_to_the_shared_ones() {
    let mut s = Sandbox::new();
    s.shared_ipcns = "/proc/1/ns/ipc".to_string();
    s.shared_utsns = "/proc/1/ns/uts".to_string();
    s.sandbox_pidns = Some("/proc/1/ns/pid".to_string());

    let mut spec = empty_spec();
    spec.linux = Some(Linux {
        namespaces: vec![
            LinuxNamespace { ns_type: "ipc".to_string(), path: "/host/ipc".to_string() },
            LinuxNamespace { ns_type: "uts".to_string(), path: String::new() },
            LinuxNamespace { ns_type: "network".to_string(), path: "/keep".to_string() },
        ],
    });

    update_container_namespaces(&s, &mut spec, true).unwrap();
    let ns = spec.linux.unwrap().namespaces;
    assert_eq!(ns.len(), 4);
    assert_eq!(ns[0].path, "/proc/1/ns/ipc");
    assert_eq!(ns[1].path, "/proc/1/ns/uts");
    assert_eq!(ns[2].path, "/keep");
    assert_eq!(ns[3].ns_type, "pid");
    assert_eq!(ns[3].path, "/proc/1/ns/pid");
}

#[test]
fn namespace_rewrite_needs_linux_and_a_shared_pidns_when_asked() {
    let s = Sandbox::new();
    let mut no_linux = empty_spec();
    assert!(update_container_namespaces(&s, &mut no_linux, false).is_err());

    let mut spec = empty_spec();
    spec.linux = Some(Linux { namespaces: Vec::new() });
    // shared PID requested, but the sandbox has none
    assert!(update_container_namespaces(&s, &mut spec, true).is_err());

    // without the request a fresh PID namespace is asked for (empty path)
    let mut spec2 = empty_spec();
    spec2.linux = Some(Linux { namespaces: Vec::new() });
    update_container_namespaces(&s, &mut spec2, false).unwrap();
    let ns = spec2.linux.unwrap().namespaces;
    assert_eq!(ns.len(), 1);
    assert_eq!(ns[0].ns_type, "pid");
    assert_eq!(ns[0].path, "");
}

#[test]
fn path_join_handles_separators_and_absolute_components() {
    assert_eq!(path_join("/a/b", "c"), "/a/b/c");
    assert_eq!(path_join("/a/b/", "c"), "/a/b/c");
    assert_eq!(path_join("/a/b", "/abs"), "/abs");
    assert_eq!(path_join("", "c"), "c");
}

#[test]
fn copy_destination_must_stay_under_the_base_directory() {
    assert!(copy_dest_check("/run/kata-containers").is_ok());
    assert!(copy_dest_check("/run/kata-containers/c1/file").is_ok());
    assert!(copy_dest_check("/run/kata-containersx").is_err());
    assert!(copy_dest_check("/etc/passwd").is_err());
    assert!(copy_dest_check("").is_err());
}
