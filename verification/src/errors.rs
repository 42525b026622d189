//! Domain error taxonomy and the single boundary conversion to transport
//! status codes.
//!
//! Handlers raise an `ErrorKind`; the dispatcher converts it exactly once
//! into a `Status`. Unknown container or process IDs map to
//! `InvalidArgument` (kept as-is, not a distinct not-found status), and a
//! deadline-bound removal that exceeds its budget raises `Timeout`, which
//! the transport reports as an internal failure.

use vstd::prelude::*;

verus! {

/// A domain error raised by a handler.
#[derive(Clone, Copy, Debug, PartialEq, Eq, Structural)]
pub enum ErrorKind {
    /// Malformed container ID, missing or empty payload, or an unknown
    /// container or process ID.
    InvalidArgument,
    /// The operation needs a terminal that is not attached, or a feature
    /// that is disabled.
    Unavailable,
    /// A deadline-bound removal exceeded its budget.
    Timeout,
    /// Any other failure (runtime, I/O, cgroup), wrapped with context.
    Internal,
}

/// A transport status code, produced once at the dispatcher boundary.
#[derive(Clone, Copy, Debug, PartialEq, Eq, Structural)]
pub enum Status {
    InvalidArgument,
    Unavailable,
    Unimplemented,
    Internal,
}

/// The boundary mapping from a domain error to its status code.
pub open spec fn status_of_kind(e: ErrorKind) -> Status {
    match e {
        ErrorKind::InvalidArgument => Status::InvalidArgument,
        ErrorKind::Unavailable => Status::Unavailable,
        ErrorKind::Timeout => Status::Internal,
        ErrorKind::Internal => Status::Internal,
    }
}

/// Convert a domain error into the status code reported to the caller.
pub fn status_of(e: ErrorKind) -> (s: Status)
    ensures
        s == status_of_kind(e),
{
    match e {
        ErrorKind::InvalidArgument => Status::InvalidArgument,
        ErrorKind::Unavailable => Status::Unavailable,
        ErrorKind::Timeout => Status::Internal,
        ErrorKind::Internal => Status::Internal,
    }
}

/// Check an operation name against the configured endpoint allow-list.
pub fn is_allowed_endpoint(allowed: &Vec<String>, name: &String) -> (b: bool)
    ensures
        b <==> exists|i: int| 0 <= i < allowed@.len() && allowed@[i]@ == name@,
{
    let mut k: usize = 0;
    while k < allowed.len()
        invariant
            k <= allowed@.len(),
            forall|i: int| 0 <= i < k ==> allowed@[i]@ != name@,
        decreases allowed@.len() - k,
    {
        if allowed[k] == *name {
            return true;
        }
        k += 1;
    }
    false
}

/// Unwrap a request payload that must be present; a missing one is a
/// validation failure.
pub fn require_present<T>(v: Option<T>) -> (r: Result<T, ErrorKind>)
    ensures
        match v {
            Some(x) => r == Ok::<T, ErrorKind>(x),
            None => r == Err::<T, ErrorKind>(ErrorKind::InvalidArgument),
        },
{
    match v {
        Some(x) => Ok(x),
        None => Err(ErrorKind::InvalidArgument),
    }
}

/// Admit an operation that the allow-list carries; any other operation
/// fails with an unimplemented status before its handler runs.
pub fn admit_endpoint(allowed: bool) -> (r: Result<(), Status>)
    ensures
        r is Ok <==> allowed,
        r is Err ==> r->Err_0 == Status::Unimplemented,
{
    if allowed {
        Ok(())
    } else {
        Err(Status::Unimplemented)
    }
}

} // verus!
