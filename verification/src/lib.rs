//! A fixed-size in-process worker pool with deterministic round-robin
//! dispatch and a draining shutdown protocol.
//!
//! The pool itself is a verified control core: it decides which worker
//! receives each submitted task, tracks each worker's inbound queue as a
//! ghost history, and carries proofs that dispatch is deterministic
//! (submission `i` goes to worker `i mod N`), that each worker receives its
//! tasks in submission order, and that every delivered task is charged to
//! exactly one worker. An embedding program supplies the operating-system
//! threads and queues and reports their events (a dead consumer, the outcome
//! of a join) back to the core.

pub mod errors;
pub mod laws;
pub mod pool;
pub mod routing;
pub mod worker;

pub use errors::PoolError;
pub use pool::ThreadPool;
pub use worker::TaskCarrier;
