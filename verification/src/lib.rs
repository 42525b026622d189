//! Core of an in-guest container agent: the shared registry of containers
//! and processes, the exit-code synchronization protocol, the stream
//! multiplexor decisions, and the timeout-bound teardown and
//! signal-broadcast logic. Request validation and error conversion live
//! here too; the transport, the OCI runtime and all I/O sit outside and
//! drive these functions with plain values.

pub mod errors;
pub mod exitwait;
pub mod guestinfo;
pub mod hexnum;
pub mod ident;
pub mod lifecycle;
pub mod ocispec;
pub mod paths;
pub mod registry;
pub mod signal;
pub mod streams;
pub mod teardown;
pub mod text;

use vstd::prelude::*;

verus! {

/// Whether this build carries seccomp support; this build does not.
pub fn have_seccomp() -> (r: bool)
    ensures
        r == false,
{
    false
}

} // verus!
