//! Errors surfaced by the pool.

use vstd::prelude::*;

verus! {

/// Everything that can go wrong while operating the pool.
///
/// Each failure is surfaced synchronously at the call that triggered it;
/// nothing is retried and nothing aborts the host process.
#[derive(Clone, Copy, Debug, PartialEq, Eq, Structural)]
pub enum PoolError {
    /// A pool was requested with zero workers.
    Construction,
    /// A task could not be delivered because the target worker's consuming
    /// side has already terminated.
    Dispatch,
    /// A worker thread exited abnormally, observed while shutting down.
    WorkerTermination,
}

} // verus!
