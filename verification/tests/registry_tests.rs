use agent_core::errors::ErrorKind;
use agent_core::registry::{Container, MountList, Sandbox};
use agent_core::teardown::{interpret_destroy_race, DestroyRace};

fn container(id: &str) -> Container {
    Container { id: id.to_string(), processes: Vec::new(), has_cgroup_manager: true }
}

#[test]
fn containers_are_registered_and_found_by_id() {
    let mut s = Sandbox::new();
    s.add_container(container("aa"));
    s.add_container(container("bb"));
    assert_eq!(s.find_container(&"aa".to_string()), Some(0));
    assert_eq!(s.find_container(&"bb".to_string()), Some(1));
    assert_eq!(s.find_container(&"cc".to_string()), None);
}

#[test]
fn remove_container_resources_releases_mounts_and_storages() {
    let mut s = Sandbox::new();
    s.add_container(container("aa"));
    s.storages = vec!["m1".to_string(), "m2".to_string(), "m3".to_string()];
    s.container_mounts.push(MountList {
        cid: "aa".to_string(),
        mounts: vec!["m1".to_string(), "m3".to_string(), "unknown".to_string()],
    });

    assert!(s.remove_container_resources(&"aa".to_string()).is_ok());
    assert!(s.find_container(&"aa".to_string()).is_none());
    assert!(s.container_mounts.is_empty());
    assert_eq!(s.storages, vec!["m2".to_string()]);
}

#[test]
fn remove_container_resources_tolerates_absent_entries() {
    let mut s = Sandbox::new();
    s.storages = vec!["m1".to_string()];
    assert!(s.remove_container_resources(&"ghost".to_string()).is_ok());
    assert_eq!(s.storages, vec!["m1".to_string()]);
}

#[test]
fn set_container_mounts_replaces_an_existing_record() {
    let mut s = Sandbox::new();
    s.set_container_mounts(&"aa".to_string(), vec!["m1".to_string()]);
    s.set_container_mounts(&"aa".to_string(), vec!["m2".to_string()]);
    assert_eq!(s.container_mounts.len(), 1);
    assert_eq!(s.container_mounts[0].mounts, vec!["m2".to_string()]);
}

#[test]
fn sandbox_setup_records_hostname_and_optional_id() {
    let mut s = Sandbox::new();
    s.id = "default".to_string();
    s.setup_sandbox("guest".to_string(), String::new());
    assert_eq!(s.hostname, "guest");
    assert!(s.running);
    assert_eq!(s.id, "default");

    s.setup_sandbox("guest".to_string(), "sb1".to_string());
    assert_eq!(s.id, "sb1");
}

#[test]
fn destroy_is_single_use() {
    let mut s = Sandbox::new();
    assert!(s.destroy_sandbox_step().is_ok());
    assert!(!s.event_tx_open);
    let second = s.destroy_sandbox_step();
    assert_eq!(second.unwrap_err(), ErrorKind::Internal);
}

#[test]
fn start_plan_attaches_oom_monitor_only_below_top_level() {
    let mut s = Sandbox::new();
    s.id = "sandbox".to_string();
    s.add_container(container("sandbox"));
    s.add_container(container("workload"));

    // the top-level container gets no monitor
    assert_eq!(s.start_plan(&"sandbox".to_string()).unwrap(), false);
    // an ordinary container with a cgroup manager does
    assert_eq!(s.start_plan(&"workload".to_string()).unwrap(), true);
    assert!(s.start_plan(&"ghost".to_string()).is_err());
}

#[test]
fn cgroup_check_distinguishes_lookup_from_missing_manager() {
    let mut s = Sandbox::new();
    s.add_container(container("aa"));
    s.add_container(Container {
        id: "bb".to_string(),
        processes: Vec::new(),
        has_cgroup_manager: false,
    });
    assert!(s.cgroup_manager_check(&"aa".to_string()).is_ok());
    assert_eq!(s.cgroup_manager_check(&"bb".to_string()).unwrap_err(), ErrorKind::Internal);
    assert_eq!(
        s.cgroup_manager_check(&"ghost".to_string()).unwrap_err(),
        ErrorKind::InvalidArgument
    );
}

#[test]
fn destroy_race_outcomes_map_to_their_errors() {
    assert!(interpret_destroy_race(DestroyRace::Completed).is_ok());
    assert_eq!(
        interpret_destroy_race(DestroyRace::DeadlineElapsed).unwrap_err(),
        ErrorKind::Timeout
    );
    assert_eq!(interpret_destroy_race(DestroyRace::TaskFailed).unwrap_err(), ErrorKind::Internal);
}
