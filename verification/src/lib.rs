//! A verified background file-download engine: authentication-aware request
//! construction, server-size discovery, chunked streaming transfer with
//! progress/speed/ETA telemetry, and a cancellation registry keyed by
//! caller-supplied download identifiers.
//!
//! The engine itself performs no I/O. Network and filesystem work run in the
//! surrounding application, which feeds the observed events (responses,
//! chunks, clock readings, cancellation signals) into the verified state
//! machine and carries out the actions it decides on.

use vstd::prelude::*;

pub mod engine;
pub mod errors;
pub mod orchestrator;
pub mod path;
pub mod registry;
pub mod request;

verus! {

/// An HTTP status code counts as a success exactly when it lies in 2xx.
pub open spec fn spec_status_is_success(status: u16) -> bool {
    200 <= status < 300
}

/// Executable form of [`spec_status_is_success`].
pub fn status_is_success(status: u16) -> (r: bool)
    ensures
        r == spec_status_is_success(status),
{
    200 <= status && status < 300
}

} // verus!
