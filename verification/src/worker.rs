//! A single worker's verified control state.
//!
//! A live worker owns one background execution thread and the receiving end
//! of a private FIFO task queue; the embedding program supplies both. The
//! `TaskCarrier` here is the worker's bookkeeping half: whether the
//! consuming side is still running, how many tasks have been handed over,
//! and — as a ghost history — exactly which tasks, in which order.

use vstd::prelude::*;

use crate::errors::PoolError;

verus! {

/// The control state of one worker: its delivery count, whether its
/// consuming side is still alive, and the ghost history of every task
/// delivered to it, in arrival order.
pub struct TaskCarrier<T> {
    alive: bool,
    delivered: usize,
    history: Ghost<Seq<T>>,
}

impl<T> TaskCarrier<T> {
    /// The tasks delivered to this worker, in arrival order.
    pub closed spec fn history_view(self) -> Seq<T> {
        self.history@
    }

    /// Whether the worker's consuming side is still running.
    pub closed spec fn is_alive_spec(self) -> bool {
        self.alive
    }

    /// The number of tasks delivered so far.
    pub closed spec fn task_count_spec(self) -> int {
        self.delivered as int
    }

    /// The delivery counter matches the ghost history.
    pub closed spec fn wf(self) -> bool {
        self.delivered as int == self.history@.len()
    }

    /// A well-formed carrier's counter is its history's length.
    pub proof fn lemma_wf(self)
        requires
            self.wf(),
        ensures
            self.task_count_spec() == self.history_view().len(),
    {
    }

    /// A fresh worker: nothing delivered, consuming side running.
    pub fn new() -> (c: TaskCarrier<T>)
        ensures
            c.wf(),
            c.is_alive_spec(),
            c.history_view() == Seq::<T>::empty(),
    {
        TaskCarrier { alive: true, delivered: 0, history: Ghost(Seq::empty()) }
    }

    /// Deliver one task to this worker's queue.
    ///
    /// Succeeds, handing the task back for the embedding program to place
    /// on the worker's real queue, unless the consuming side has already
    /// terminated, in which case the delivery fails and the history is
    /// unchanged.
    pub fn send(&mut self, task: T) -> (r: Result<T, PoolError>)
        requires
            old(self).wf(),
            old(self).is_alive_spec() ==> old(self).task_count_spec() < usize::MAX,
        ensures
            final(self).wf(),
            final(self).is_alive_spec() == old(self).is_alive_spec(),
            old(self).is_alive_spec() ==> {
                &&& r == Ok::<T, PoolError>(task)
                &&& final(self).history_view() == old(self).history_view().push(task)
            },
            !old(self).is_alive_spec() ==> {
                &&& r == Err::<T, PoolError>(PoolError::Dispatch)
                &&& final(self).history_view() == old(self).history_view()
            },
    {
        if self.alive {
            let ghost t = task;
            self.delivered = self.delivered + 1;
            self.history = Ghost(self.history@.push(t));
            Ok(task)
        } else {
            Err(PoolError::Dispatch)
        }
    }

    /// Record that the worker's consuming side has terminated; later
    /// deliveries fail. The history of what was already delivered stands.
    pub fn mark_terminated(&mut self)
        ensures
            final(self).wf() == old(self).wf(),
            !final(self).is_alive_spec(),
            final(self).history_view() == old(self).history_view(),
            final(self).task_count_spec() == old(self).task_count_spec(),
    {
        self.alive = false;
    }

    /// Whether the worker's consuming side is still running.
    pub fn is_alive(&self) -> (r: bool)
        ensures
            r == self.is_alive_spec(),
    {
        self.alive
    }

    /// How many tasks have been delivered to this worker.
    pub fn task_count(&self) -> (r: usize)
        requires
            self.wf(),
        ensures
            r as int == self.history_view().len(),
    {
        self.delivered
    }
}

} // verus!
