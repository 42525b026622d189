//! Stream multiplexor decisions: which handle serves a process's stdin,
//! stdout and stderr, how one bounded read is judged against the
//! terminal-hangup notifier, and the idempotent shutdown of the input
//! stream. The reads and writes themselves happen outside, on the handles
//! these decisions name.

use vstd::prelude::*;
use crate::errors::ErrorKind;
use crate::exitwait::{containers_equal_except, container_fields_same, same_but_wait_state};
use crate::registry::{
    container_index, find_proc, lemma_container_index, lemma_proc_index_by_eid,
    proc_index_by_eid, Process, Sandbox,
};

verus! {

/// The single writer of a process's input.
#[derive(Clone, Copy, Debug, PartialEq, Eq, Structural)]
pub enum StreamWriter {
    /// The terminal master serves input when a terminal is attached.
    TermMaster,
    /// Otherwise the parent side of the stdin pipe.
    ParentStdin,
}

/// The reader serving one output stream.
#[derive(Clone, Copy, Debug, PartialEq, Eq, Structural)]
pub enum StreamReader {
    /// The terminal master serves both stdout and stderr when a terminal
    /// is attached.
    TermMaster,
    ParentStdout,
    ParentStderr,
}

/// The writer a process's input resolves to.
pub open spec fn writer_spec(p: Process) -> Option<StreamWriter> {
    if p.term_master {
        Some(StreamWriter::TermMaster)
    } else if p.parent_stdin {
        Some(StreamWriter::ParentStdin)
    } else {
        None
    }
}

/// The reader an output request resolves to: the terminal master when one
/// is attached, else the stream's own pipe; a request for a stream whose
/// pipe is gone resolves to nothing.
pub open spec fn reader_spec(p: Process, stdout: bool) -> Option<StreamReader> {
    if p.term_master {
        Some(StreamReader::TermMaster)
    } else if stdout {
        if p.parent_stdout {
            Some(StreamReader::ParentStdout)
        } else {
            None
        }
    } else if p.parent_stderr {
        Some(StreamReader::ParentStderr)
    } else {
        None
    }
}

/// What shutting the input stream down leaves behind: the pipe writer is
/// gone, the closed mark is set, and nothing else moves. Applying this
/// twice is the same as applying it once.
pub open spec fn stdin_closed_post(a: Process, b: Process) -> bool {
    &&& b.pid == a.pid
    &&& b.exec_id == a.exec_id
    &&& b.init == a.init
    &&& b.stage == a.stage
    &&& b.exit_code == a.exit_code
    &&& b.exit_watchers == a.exit_watchers
    &&& b.has_exit_rx == a.has_exit_rx
    &&& b.term_master == a.term_master
    &&& b.parent_stdin == false
    &&& b.parent_stdout == a.parent_stdout
    &&& b.parent_stderr == a.parent_stderr
    &&& b.stdin_closed == true
}

impl Process {
    /// Resolve the single writer for this process's input.
    pub fn resolve_writer(&self) -> (r: Option<StreamWriter>)
        ensures
            r == writer_spec(*self),
    {
        if self.term_master {
            Some(StreamWriter::TermMaster)
        } else if self.parent_stdin {
            Some(StreamWriter::ParentStdin)
        } else {
            None
        }
    }

    /// Resolve the reader for stdout (`stdout` true) or stderr.
    pub fn resolve_reader(&self, stdout: bool) -> (r: Option<StreamReader>)
        ensures
            r == reader_spec(*self, stdout),
    {
        if self.term_master {
            Some(StreamReader::TermMaster)
        } else if stdout {
            if self.parent_stdout {
                Some(StreamReader::ParentStdout)
            } else {
                None
            }
        } else if self.parent_stderr {
            Some(StreamReader::ParentStderr)
        } else {
            None
        }
    }

    /// Shut down the write side of this process's input stream. Idempotent
    /// and infallible: a second call changes nothing and succeeds too.
    pub fn close_stdin(&mut self)
        ensures
            stdin_closed_post(*old(self), *final(self)),
    {
        self.parent_stdin = false;
        self.stdin_closed = true;
    }
}

/// Closing an already-closed input stream changes nothing: the state after
/// a second shutdown equals the state after the first, so the call cannot
/// fail the second time either.
pub proof fn lemma_close_stdin_idempotent(p0: Process, p1: Process, p2: Process)
    requires
        stdin_closed_post(p0, p1),
        stdin_closed_post(p1, p2),
    ensures
        p2 == p1,
{
    assert(p2.exit_watchers == p1.exit_watchers);
}

/// Judge one bounded read that was raced against the terminal-hangup
/// notifier: hangup first is end-of-stream, a zero-byte read is peer
/// end-of-file reported as an error, anything else is the bytes read.
pub fn interpret_read(hangup_first: bool, data: Vec<u8>) -> (r: Result<Vec<u8>, ErrorKind>)
    ensures
        hangup_first ==> r == Err::<Vec<u8>, ErrorKind>(ErrorKind::Internal),
        !hangup_first && data@.len() == 0 ==> r == Err::<Vec<u8>, ErrorKind>(ErrorKind::Internal),
        !hangup_first && data@.len() > 0 ==> (r matches Ok(d) && d@ == data@),
{
    if hangup_first {
        Err(ErrorKind::Internal)
    } else if data.len() == 0 {
        Err(ErrorKind::Internal)
    } else {
        Ok(data)
    }
}

/// The write-stream response: the full buffer is written, so the reported
/// count is its length.
pub fn write_stream_len(data: &Vec<u8>) -> (r: u32)
    requires
        data@.len() <= u32::MAX,
    ensures
        r == data@.len(),
{
    data.len() as u32
}

impl Sandbox {
    /// Resolve the writer for a process's input, as the write-stdin
    /// handler does: unknown container or process is an invalid argument,
    /// a process with no writer left is an internal failure.
    pub fn writer_for(&self, cid: &String, eid: &String) -> (r: Result<StreamWriter, ErrorKind>)
        ensures
            match container_index(self.containers@, cid@) {
                None => r == Err::<StreamWriter, ErrorKind>(ErrorKind::InvalidArgument),
                Some(ci) => match proc_index_by_eid(self.containers@[ci].processes@, eid@) {
                    None => r == Err::<StreamWriter, ErrorKind>(ErrorKind::InvalidArgument),
                    Some(pi) => match writer_spec(self.containers@[ci].processes@[pi]) {
                        Some(w) => r == Ok::<StreamWriter, ErrorKind>(w),
                        None => r == Err::<StreamWriter, ErrorKind>(ErrorKind::Internal),
                    },
                },
            },
    {
        match self.locate(cid, eid) {
            Err(e) => Err(e),
            Ok((ci, pi)) => {
                proof {
                    lemma_container_index(self.containers@, cid@);
                    lemma_proc_index_by_eid(self.containers@[ci as int].processes@, eid@);
                }
                match self.containers[ci].processes[pi].resolve_writer() {
                    Some(w) => Ok(w),
                    None => Err(ErrorKind::Internal),
                }
            },
        }
    }

    /// Resolve the reader for a process's stdout or stderr, as the
    /// read-stream handlers do; a stream with no reader is rejected as an
    /// invalid argument.
    pub fn reader_for(&self, cid: &String, eid: &String, stdout: bool) -> (r: Result<
        StreamReader,
        ErrorKind,
    >)
        ensures
            match container_index(self.containers@, cid@) {
                None => r == Err::<StreamReader, ErrorKind>(ErrorKind::InvalidArgument),
                Some(ci) => match proc_index_by_eid(self.containers@[ci].processes@, eid@) {
                    None => r == Err::<StreamReader, ErrorKind>(ErrorKind::InvalidArgument),
                    Some(pi) => match reader_spec(self.containers@[ci].processes@[pi], stdout) {
                        Some(rd) => r == Ok::<StreamReader, ErrorKind>(rd),
                        None => r == Err::<StreamReader, ErrorKind>(ErrorKind::InvalidArgument),
                    },
                },
            },
    {
        match self.locate(cid, eid) {
            Err(e) => Err(e),
            Ok((ci, pi)) => {
                proof {
                    lemma_container_index(self.containers@, cid@);
                    lemma_proc_index_by_eid(self.containers@[ci as int].processes@, eid@);
                }
                match self.containers[ci].processes[pi].resolve_reader(stdout) {
                    Some(rd) => Ok(rd),
                    None => Err(ErrorKind::InvalidArgument),
                }
            },
        }
    }

    /// Locate a process by container ID and exec ID.
    pub fn locate(&self, cid: &String, eid: &String) -> (r: Result<(usize, usize), ErrorKind>)
        ensures
            match container_index(self.containers@, cid@) {
                None => r == Err::<(usize, usize), ErrorKind>(ErrorKind::InvalidArgument),
                Some(ci) => match proc_index_by_eid(self.containers@[ci].processes@, eid@) {
                    None => r == Err::<(usize, usize), ErrorKind>(ErrorKind::InvalidArgument),
                    Some(pi) => r matches Ok(p) && p.0 == ci && p.1 == pi,
                },
            },
    {
        let ci = match self.find_container(cid) {
            Some(ci) => ci,
            None => {
                return Err(ErrorKind::InvalidArgument);
            }
        };
        proof {
            lemma_container_index(self.containers@, cid@);
        }
        match find_proc(&self.containers[ci].processes, eid) {
            Some(pi) => Ok((ci, pi)),
            None => Err(ErrorKind::InvalidArgument),
        }
    }

    /// Shut down the input stream of a process, as the close-stdin handler
    /// does: only an unknown container or process fails; closing twice is
    /// as good as closing once.
    pub fn close_stdin_for(&mut self, cid: &String, eid: &String) -> (r: Result<(), ErrorKind>)
        requires
            old(self).wf(),
        ensures
            final(self).wf(),
            match container_index(old(self).containers@, cid@) {
                None => r == Err::<(), ErrorKind>(ErrorKind::InvalidArgument) && *final(self)
                    == *old(self),
                Some(ci) => match proc_index_by_eid(old(self).containers@[ci].processes@, eid@) {
                    None => r == Err::<(), ErrorKind>(ErrorKind::InvalidArgument) && *final(self)
                        == *old(self),
                    Some(pi) => {
                        &&& r is Ok
                        &&& same_but_wait_state(*old(self), *final(self))
                        &&& final(self).watcher_states == old(self).watcher_states
                        &&& containers_equal_except(
                            old(self).containers@,
                            final(self).containers@,
                            ci,
                        )
                        &&& container_fields_same(
                            old(self).containers@[ci],
                            final(self).containers@[ci],
                        )
                        &&& final(self).containers@[ci].processes@.len() == old(
                            self,
                        ).containers@[ci].processes@.len()
                        &&& forall|q: int|
                            0 <= q < old(self).containers@[ci].processes@.len() && q != pi
                                ==> final(self).containers@[ci].processes@[q] == old(
                                self,
                            ).containers@[ci].processes@[q]
                        &&& stdin_closed_post(
                            old(self).containers@[ci].processes@[pi],
                            final(self).containers@[ci].processes@[pi],
                        )
                    },
                },
            },
    {
        let (ci, pi) = match self.locate(cid, eid) {
            Ok(p) => p,
            Err(e) => {
                return Err(e);
            }
        };
        proof {
            lemma_container_index(self.containers@, cid@);
            lemma_proc_index_by_eid(self.containers@[ci as int].processes@, eid@);
        }
        let c = &mut self.containers[ci];
        let q = &mut c.processes[pi];
        q.close_stdin();
        proof {
            let pre = *old(self);
            let post = *self;
            assert forall|k: int|
                0 <= k < post.containers@.len() implies (#[trigger] post.containers@[k]).wf()
                && post.containers@[k].watchers_bounded(post.watcher_states@.len() as int) by {
                assert(pre.containers@[k].wf());
                assert(pre.containers@[k].watchers_bounded(pre.watcher_states@.len() as int));
                if k == ci as int {
                    let c0 = pre.containers@[k];
                    let c1 = post.containers@[k];
                    assert forall|a: int, b: int|
                        0 <= a < c1.processes@.len() && 0 <= b
                            < c1.processes@[a].exit_watchers@.len() implies #[trigger] c1.processes@[a].exit_watchers@[b]
                        < post.watcher_states@.len() as int by {
                        if a != pi as int {
                            assert(c1.processes@[a] == c0.processes@[a]);
                        }
                    }
                }
            }
        }
        Ok(())
    }

    /// Check that a terminal is attached before a window-size change; a
    /// process without one is unavailable for resizing.
    pub fn tty_resize_check(&self, cid: &String, eid: &String) -> (r: Result<(), ErrorKind>)
        ensures
            match container_index(self.containers@, cid@) {
                None => r == Err::<(), ErrorKind>(ErrorKind::InvalidArgument),
                Some(ci) => match proc_index_by_eid(self.containers@[ci].processes@, eid@) {
                    None => r == Err::<(), ErrorKind>(ErrorKind::InvalidArgument),
                    Some(pi) => if self.containers@[ci].processes@[pi].term_master {
                        r is Ok
                    } else {
                        r == Err::<(), ErrorKind>(ErrorKind::Unavailable)
                    },
                },
            },
    {
        match self.locate(cid, eid) {
            Err(e) => Err(e),
            Ok((ci, pi)) => {
                proof {
                    lemma_container_index(self.containers@, cid@);
                    lemma_proc_index_by_eid(self.containers@[ci as int].processes@, eid@);
                }
                if self.containers[ci].processes[pi].term_master {
                    Ok(())
                } else {
                    Err(ErrorKind::Unavailable)
                }
            }
        }
    }
}

} // verus!
