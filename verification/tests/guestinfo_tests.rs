use agent_core::errors::{admit_endpoint, is_allowed_endpoint, require_present, status_of, ErrorKind, Status};
use agent_core::guestinfo::{
    capacity_usage, get_memory_info, inode_usage, modprobe_args, DiskInfo, ReadFileOutcome,
    StatOutcome, UsageUnit,
};
use agent_core::lifecycle::oom_event_response;

#[test]
fn test_get_memory_info() {
    // (block data or missing, probe file present, ask size, ask hotplug, expected)
    let tests: &[(Option<&str>, bool, bool, bool, Option<(u64, bool)>)] = &[
        (Some("10000000"), true, true, true, Some((268435456, true))),
        (Some("100"), false, true, true, Some((256, false))),
        (None, false, true, true, Some((0, false))),
        (Some(""), false, true, false, None),
        (Some("-1"), false, true, false, None),
        (Some("    "), false, true, false, None),
        (Some("some data"), false, true, false, None),
        (Some("some data"), true, false, false, Some((0, false))),
        (Some("100"), true, false, false, Some((0, false))),
        (Some("100"), true, false, true, Some((0, true))),
    ];

    for (i, (data, probe, get_block, get_hotplug, expected)) in tests.iter().enumerate() {
        let msg = format!("test[{}]: {:?}", i, (data, probe, get_block, get_hotplug));
        let br = match data {
            Some(v) => ReadFileOutcome::Content(v.to_string()),
            None => ReadFileOutcome::NotFound,
        };
        let ps = if *probe { StatOutcome::Found } else { StatOutcome::NotFound };
        let result = get_memory_info(*get_block, *get_hotplug, br, ps);
        let msg = format!("{}, result: {:?}", msg, result);
        match expected {
            Some(v) => assert_eq!(result.unwrap(), *v, "{}", msg),
            None => assert!(result.is_err(), "{}", msg),
        }
    }
}

#[test]
fn io_failures_other_than_missing_files_are_errors() {
    assert!(get_memory_info(true, false, ReadFileOutcome::OtherError, StatOutcome::NotFound)
        .is_err());
    assert!(get_memory_info(
        false,
        true,
        ReadFileOutcome::NotFound,
        StatOutcome::OtherError
    )
    .is_err());
}

#[test]
fn capacity_usage_reports_the_matching_disk() {
    let disks = vec![
        DiskInfo { name: "/dev/vda".to_string(), available: 25, total: 100 },
        DiskInfo { name: "/dev/vdb".to_string(), available: 1, total: 2 },
    ];
    let u = capacity_usage(&disks, &"/dev/vda".to_string());
    assert_eq!(u.total, 100);
    assert_eq!(u.available, 25);
    assert_eq!(u.used, 75);
    assert_eq!(u.unit, UsageUnit::Bytes);

    let none = capacity_usage(&disks, &"/dev/ghost".to_string());
    assert_eq!((none.used, none.total, none.available), (0, 0, 0));
}

#[test]
fn inode_usage_counts_inodes() {
    let u = inode_usage(777);
    assert_eq!(u.used, 777);
    assert_eq!(u.unit, UsageUnit::Inodes);
}

#[test]
fn module_loader_arguments() {
    let args = modprobe_args(&"bridge".to_string(), &vec!["p=1".to_string()]).unwrap();
    assert_eq!(args, vec!["-v".to_string(), "bridge".to_string(), "p=1".to_string()]);

    let err = modprobe_args(&String::new(), &Vec::new()).unwrap_err();
    assert_eq!(err, ErrorKind::InvalidArgument);
}

#[test]
fn oom_long_poll_answers() {
    assert_eq!(oom_event_response(Some("ctr".to_string())).unwrap(), "ctr");
    assert_eq!(oom_event_response(None).unwrap_err(), ErrorKind::Internal);
}

#[test]
fn status_conversion_happens_once_at_the_boundary() {
    assert_eq!(status_of(ErrorKind::InvalidArgument), Status::InvalidArgument);
    assert_eq!(status_of(ErrorKind::Unavailable), Status::Unavailable);
    assert_eq!(status_of(ErrorKind::Timeout), Status::Internal);
    assert_eq!(status_of(ErrorKind::Internal), Status::Internal);
}

#[test]
fn blocked_endpoints_fail_unimplemented() {
    let allowed = vec!["CreateContainer".to_string(), "WaitProcess".to_string()];
    assert!(is_allowed_endpoint(&allowed, &"WaitProcess".to_string()));
    assert!(!is_allowed_endpoint(&allowed, &"DestroySandbox".to_string()));
    assert!(admit_endpoint(true).is_ok());
    assert_eq!(admit_endpoint(false).unwrap_err(), Status::Unimplemented);
}

#[test]
fn missing_payloads_are_invalid_arguments() {
    assert_eq!(require_present(Some(5)).unwrap(), 5);
    assert_eq!(require_present::<u32>(None).unwrap_err(), ErrorKind::InvalidArgument);
}
