use agent_core::exitwait::WaitOutcome;
use agent_core::registry::{Container, ProcStage, Process, Sandbox};

fn test_process(pid: i32, exec_id: &str, init: bool) -> Process {
    Process {
        pid,
        exec_id: exec_id.to_string(),
        init,
        stage: ProcStage::Running,
        exit_code: 0,
        exit_watchers: Vec::new(),
        has_exit_rx: true,
        term_master: false,
        parent_stdin: true,
        parent_stdout: true,
        parent_stderr: true,
        stdin_closed: false,
    }
}

fn sandbox_with_process(cid: &str, pid: i32, eid: &str) -> Sandbox {
    let mut s = Sandbox::new();
    s.containers.push(Container {
        id: cid.to_string(),
        processes: vec![test_process(pid, eid, false)],
        has_cgroup_manager: true,
    });
    s
}

#[test]
fn concurrent_waiters_observe_identical_code_and_one_cleanup() {
    let cid = "ctr1".to_string();
    let eid = "exec1".to_string();
    let mut s = sandbox_with_process("ctr1", 42, "exec1");

    // Three concurrent waiters register before the process exits.
    let r1 = s.register_exit_watcher(&cid, &eid).unwrap();
    let r2 = s.register_exit_watcher(&cid, &eid).unwrap();
    let r3 = s.register_exit_watcher(&cid, &eid).unwrap();
    assert_eq!(r1.pid, 42);

    s.mark_exited(&cid, 42, 7).unwrap();

    // They finalize in some order; every one sees exit code 7 and exactly
    // one of them performs the destructive reap (the stream cleanup).
    let mut cleanups = 0;
    let mut codes = Vec::new();
    for w in [r2.watcher, r1.watcher, r3.watcher] {
        match s.finalize_wait(&cid, 42, w).unwrap() {
            WaitOutcome::Reaped(c) => {
                cleanups += 1;
                codes.push(c);
            }
            WaitOutcome::Received(c) => {
                codes.push(c);
            }
        }
    }
    assert_eq!(cleanups, 1, "stream cleanup must happen exactly once");
    assert_eq!(codes, vec![7, 7, 7]);

    // The process is gone from the table.
    let late = s.register_exit_watcher(&cid, &eid);
    assert!(late.is_err());
}

#[test]
fn late_joiner_still_gets_the_exit_code() {
    let cid = "ctr1".to_string();
    let eid = "exec1".to_string();
    let mut s = sandbox_with_process("ctr1", 10, "exec1");

    // Both waiters register while the process is alive.
    let winner = s.register_exit_watcher(&cid, &eid).unwrap();
    let late = s.register_exit_watcher(&cid, &eid).unwrap();

    s.mark_exited(&cid, 10, 3).unwrap();

    // The first finalization reaps.
    assert_eq!(s.finalize_wait(&cid, 10, winner.watcher).unwrap(), WaitOutcome::Reaped(3));

    // The late joiner finalizes strictly afterwards and is not stuck: it
    // receives the identical code from its own slot.
    assert_eq!(s.finalize_wait(&cid, 10, late.watcher).unwrap(), WaitOutcome::Received(3));
}

#[test]
fn waiter_with_empty_slot_fails_instead_of_hanging() {
    let cid = "ctr1".to_string();
    let eid = "exec1".to_string();
    let mut s = sandbox_with_process("ctr1", 10, "exec1");

    let reg = s.register_exit_watcher(&cid, &eid).unwrap();
    // The process vanishes without any reap broadcasting to this slot.
    s.containers[0].processes.clear();
    assert!(s.finalize_wait(&cid, 10, reg.watcher).is_err());
}

#[test]
fn register_rejects_unknown_container_and_process() {
    let mut s = sandbox_with_process("ctr1", 10, "exec1");
    assert!(s.register_exit_watcher(&"nope".to_string(), &"exec1".to_string()).is_err());
    assert!(s.register_exit_watcher(&"ctr1".to_string(), &"other".to_string()).is_err());
}

#[test]
fn empty_exec_id_names_the_init_process() {
    let cid = "ctr1".to_string();
    let mut s = Sandbox::new();
    s.containers.push(Container {
        id: "ctr1".to_string(),
        processes: vec![test_process(1, "ctr1", true), test_process(2, "child", false)],
        has_cgroup_manager: false,
    });
    let reg = s.register_exit_watcher(&cid, &String::new()).unwrap();
    assert_eq!(reg.pid, 1);
}

#[test]
fn mark_exited_rejects_unknown_pid() {
    let cid = "ctr1".to_string();
    let mut s = sandbox_with_process("ctr1", 10, "exec1");
    assert!(s.mark_exited(&cid, 11, 0).is_err());
    assert!(s.mark_exited(&"ghost".to_string(), 10, 0).is_err());
}
