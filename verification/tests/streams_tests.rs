use agent_core::errors::ErrorKind;
use agent_core::registry::{Container, ProcStage, Process, Sandbox};
use agent_core::streams::{interpret_read, write_stream_len, StreamReader, StreamWriter};

fn proc_with_streams(term: bool, stdin: bool, stdout: bool, stderr: bool) -> Process {
    Process {
        pid: 5,
        exec_id: "e1".to_string(),
        init: false,
        stage: ProcStage::Running,
        exit_code: 0,
        exit_watchers: Vec::new(),
        has_exit_rx: false,
        term_master: term,
        parent_stdin: stdin,
        parent_stdout: stdout,
        parent_stderr: stderr,
        stdin_closed: false,
    }
}

fn sandbox_around(p: Process) -> Sandbox {
    let mut s = Sandbox::new();
    s.containers.push(Container {
        id: "ctr".to_string(),
        processes: vec![p],
        has_cgroup_manager: false,
    });
    s
}

#[test]
fn close_stdin_twice_is_not_an_error() {
    let cid = "ctr".to_string();
    let eid = "e1".to_string();
    let mut s = sandbox_around(proc_with_streams(false, true, true, true));

    assert!(s.close_stdin_for(&cid, &eid).is_ok());
    assert!(s.containers[0].processes[0].stdin_closed);
    assert!(!s.containers[0].processes[0].parent_stdin);

    // The second close succeeds too and changes nothing.
    assert!(s.close_stdin_for(&cid, &eid).is_ok());
    assert!(s.containers[0].processes[0].stdin_closed);
}

#[test]
fn close_stdin_unknown_process_is_invalid_argument() {
    let mut s = sandbox_around(proc_with_streams(false, true, true, true));
    let r = s.close_stdin_for(&"ctr".to_string(), &"ghost".to_string());
    assert_eq!(r.unwrap_err(), ErrorKind::InvalidArgument);
}

#[test]
fn writer_prefers_terminal_master() {
    let s = sandbox_around(proc_with_streams(true, true, true, true));
    let w = s.writer_for(&"ctr".to_string(), &"e1".to_string()).unwrap();
    assert_eq!(w, StreamWriter::TermMaster);
}

#[test]
fn writer_falls_back_to_stdin_pipe_and_fails_without_one() {
    let s = sandbox_around(proc_with_streams(false, true, true, true));
    let w = s.writer_for(&"ctr".to_string(), &"e1".to_string()).unwrap();
    assert_eq!(w, StreamWriter::ParentStdin);

    let s2 = sandbox_around(proc_with_streams(false, false, true, true));
    let e = s2.writer_for(&"ctr".to_string(), &"e1".to_string()).unwrap_err();
    assert_eq!(e, ErrorKind::Internal);
}

#[test]
fn reader_resolution_follows_terminal_and_pipes() {
    let with_term = sandbox_around(proc_with_streams(true, true, true, true));
    assert_eq!(
        with_term.reader_for(&"ctr".to_string(), &"e1".to_string(), true).unwrap(),
        StreamReader::TermMaster
    );
    assert_eq!(
        with_term.reader_for(&"ctr".to_string(), &"e1".to_string(), false).unwrap(),
        StreamReader::TermMaster
    );

    let piped = sandbox_around(proc_with_streams(false, true, true, true));
    assert_eq!(
        piped.reader_for(&"ctr".to_string(), &"e1".to_string(), true).unwrap(),
        StreamReader::ParentStdout
    );
    assert_eq!(
        piped.reader_for(&"ctr".to_string(), &"e1".to_string(), false).unwrap(),
        StreamReader::ParentStderr
    );

    // stdout requested on a process with no stdout pipe fails
    let no_stdout = sandbox_around(proc_with_streams(false, true, false, true));
    assert_eq!(
        no_stdout.reader_for(&"ctr".to_string(), &"e1".to_string(), true).unwrap_err(),
        ErrorKind::InvalidArgument
    );
}

#[test]
fn read_interpretation_hangup_zero_and_data() {
    assert!(interpret_read(true, vec![1, 2]).is_err());
    assert!(interpret_read(false, Vec::new()).is_err());
    assert_eq!(interpret_read(false, vec![9, 8, 7]).unwrap(), vec![9, 8, 7]);
}

#[test]
fn write_response_reports_full_buffer_length() {
    let data = vec![0u8; 1234];
    assert_eq!(write_stream_len(&data), 1234);
}

#[test]
fn tty_resize_needs_a_terminal() {
    let with_term = sandbox_around(proc_with_streams(true, false, false, false));
    assert!(with_term.tty_resize_check(&"ctr".to_string(), &"e1".to_string()).is_ok());

    let no_term = sandbox_around(proc_with_streams(false, true, true, true));
    assert_eq!(
        no_term.tty_resize_check(&"ctr".to_string(), &"e1".to_string()).unwrap_err(),
        ErrorKind::Unavailable
    );

    assert_eq!(
        no_term.tty_resize_check(&"ghost".to_string(), &"e1".to_string()).unwrap_err(),
        ErrorKind::InvalidArgument
    );
}
