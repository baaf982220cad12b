//! Errors of the benchmark and of the remote service it drives.
use vstd::prelude::*;

verus! {

/// A failure reported by the coordination service.
#[derive(Clone, Copy, Debug, PartialEq, Eq, Structural)]
pub enum ServiceError {
    /// The path does not exist.
    NoNode,
    /// A node already exists at the path.
    NodeExists,
    /// Any other failure, by the service's error code.
    Other(i32),
}

/// Why a benchmark could not run or produce a result.
#[derive(Clone, Copy, Debug, PartialEq, Eq, Structural)]
pub enum BenchError {
    /// The worker count is zero or exceeds the iteration count.
    InvalidWorkers,
    /// Preparing the namespace failed.
    Prepare(ServiceError),
    /// At least one worker of a phase failed.
    BenchFailed,
    /// A phase took no measurable time, so no rate exists.
    NoElapsedTime,
}

} // verus!
