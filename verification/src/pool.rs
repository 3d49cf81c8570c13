//! The pool: a fixed-length ordered collection of workers plus a monotonic
//! dispatch counter, with deterministic round-robin dispatch and a draining
//! shutdown protocol.
//!
//! The `ThreadPool` here is the pool's verified control core. The embedding
//! program owns the operating-system half of each worker (its thread and
//! queue), asks the core where each task goes, reports any worker whose
//! consuming side terminated, and aggregates the join outcomes of shutdown
//! through `shutdown_report`.

use vstd::prelude::*;

use crate::errors::PoolError;
use crate::routing::lemma_route_indices_len;
use crate::routing::lemma_routed_tasks_empty;
use crate::routing::lemma_routed_tasks_step;
use crate::routing::route_indices;
use crate::routing::routed_tasks;
use crate::worker::TaskCarrier;

verus! {

/// A fixed-size worker pool with round-robin dispatch.
///
/// The pool owns an ordered, fixed-length sequence of at least one worker
/// and a dispatch counter that counts every submission attempt. The
/// attempt with submission index `i` targets worker `i % n`; the ghost log
/// and per-attempt outcomes record what was submitted and whether it was
/// delivered.
pub struct ThreadPool<T> {
    workers: Vec<TaskCarrier<T>>,
    counter: usize,
    log: Ghost<Seq<T>>,
    outcomes: Ghost<Seq<bool>>,
}

impl<T> ThreadPool<T> {
    /// The fixed number of workers.
    pub closed spec fn num_workers_spec(self) -> int {
        self.workers@.len() as int
    }

    /// How many submissions have been attempted.
    pub closed spec fn submitted_spec(self) -> int {
        self.counter as int
    }

    /// Every task ever submitted, in submission order, delivered or not.
    pub closed spec fn log_view(self) -> Seq<T> {
        self.log@
    }

    /// For each submission index, whether the task was delivered to its
    /// target worker.
    pub closed spec fn outcomes_view(self) -> Seq<bool> {
        self.outcomes@
    }

    /// Whether submission `i` was delivered.
    pub open spec fn delivered_at(self, i: int) -> bool {
        self.outcomes_view()[i]
    }

    /// The tasks delivered to worker `w`, in arrival order.
    pub closed spec fn worker_history(self, w: int) -> Seq<T> {
        self.workers@[w].history_view()
    }

    /// Whether worker `w`'s consuming side is still running.
    pub closed spec fn worker_alive_spec(self, w: int) -> bool {
        self.workers@[w].is_alive_spec()
    }

    /// Whether submission `i` sits in worker `w`'s queue history.
    pub open spec fn queued_to(self, w: int, i: int) -> bool {
        route_indices(self.outcomes_view(), w, self.num_workers_spec()).contains(i)
    }

    /// Well-formedness: at least one worker, one log entry and one outcome
    /// per attempted submission, and each worker's history is exactly what
    /// round-robin dispatch routed to it.
    pub closed spec fn wf(self) -> bool {
        &&& 1 <= self.workers@.len()
        &&& self.counter as int == self.log@.len()
        &&& self.log@.len() == self.outcomes@.len()
        &&& forall|w: int| 0 <= w < self.workers@.len() ==> (#[trigger] self.workers@[w]).wf()
        &&& forall|w: int|
            0 <= w < self.workers@.len() ==> (#[trigger] self.workers@[w]).history_view()
                == routed_tasks(self.log@, self.outcomes@, w, self.workers@.len() as int)
    }

    /// A well-formed pool has at least one worker, a submission counter
    /// equal to its log, and worker histories given by the routing model.
    pub proof fn lemma_wf(self)
        requires
            self.wf(),
        ensures
            1 <= self.num_workers_spec(),
            self.submitted_spec() == self.log_view().len(),
            self.log_view().len() == self.outcomes_view().len(),
            forall|w: int|
                0 <= w < self.num_workers_spec() ==> #[trigger] self.worker_history(w)
                    == routed_tasks(self.log_view(), self.outcomes_view(), w, self.num_workers_spec()),
    {
        assert forall|w: int| 0 <= w < self.num_workers_spec() implies #[trigger] self.worker_history(w)
            == routed_tasks(self.log_view(), self.outcomes_view(), w, self.num_workers_spec()) by {
            assert(self.workers@[w].history_view()
                == routed_tasks(self.log@, self.outcomes@, w, self.workers@.len() as int));
        }
    }

    /// Build a pool of `num_threads` workers.
    ///
    /// Rejects a zero-size pool with a construction error before any
    /// worker exists; otherwise every worker starts alive with an empty
    /// history and the dispatch counter starts at zero.
    pub fn new(num_threads: usize) -> (r: Result<ThreadPool<T>, PoolError>)
        ensures
            num_threads == 0 ==> r == Err::<ThreadPool<T>, PoolError>(PoolError::Construction),
            num_threads > 0 ==> (r matches Ok(p)
                && p.wf()
                && p.num_workers_spec() == num_threads
                && p.submitted_spec() == 0
                && p.log_view() == Seq::<T>::empty()
                && p.outcomes_view() == Seq::<bool>::empty()
                && (forall|w: int|
                    0 <= w < num_threads ==> #[trigger] p.worker_alive_spec(w)
                        && p.worker_history(w) == Seq::<T>::empty())),
    {
        if num_threads == 0 {
            return Err(PoolError::Construction);
        }
        let mut workers: Vec<TaskCarrier<T>> = Vec::new();
        let mut i: usize = 0;
        while i < num_threads
            invariant
                i <= num_threads,
                workers@.len() == i,
                forall|w: int|
                    0 <= w < i ==> (#[trigger] workers@[w]).wf() && workers@[w].is_alive_spec()
                        && workers@[w].history_view() == Seq::<T>::empty(),
            decreases num_threads - i,
        {
            workers.push(TaskCarrier::new());
            i = i + 1;
        }
        let pool = ThreadPool {
            workers,
            counter: 0,
            log: Ghost(Seq::empty()),
            outcomes: Ghost(Seq::empty()),
        };
        proof {
            assert forall|w: int| 0 <= w < pool.workers@.len() implies (#[trigger] pool.workers@[w]).history_view()
                == routed_tasks(pool.log@, pool.outcomes@, w, pool.workers@.len() as int) by {
                lemma_routed_tasks_empty::<T>(w, pool.workers@.len() as int);
            }
        }
        Ok(pool)
    }

    /// Submit one task.
    ///
    /// The attempt targets worker `counter % n` and advances the counter
    /// whether or not delivery succeeds. If the target worker is alive the
    /// task is delivered and handed back, paired with the worker's index,
    /// for the embedding program to place on that worker's real queue;
    /// otherwise the submission fails with a dispatch error and no
    /// worker's history changes.
    pub fn send(&mut self, task: T) -> (r: Result<(usize, T), PoolError>)
        requires
            old(self).wf(),
            old(self).submitted_spec() < usize::MAX,
        ensures
            final(self).wf(),
            final(self).num_workers_spec() == old(self).num_workers_spec(),
            final(self).submitted_spec() == old(self).submitted_spec() + 1,
            final(self).log_view() == old(self).log_view().push(task),
            forall|w: int|
                0 <= w < old(self).num_workers_spec() ==> #[trigger] final(self).worker_alive_spec(w)
                    == old(self).worker_alive_spec(w),
            ({
                let n = old(self).num_workers_spec();
                let tgt = old(self).submitted_spec() % n;
                &&& old(self).worker_alive_spec(tgt) ==> {
                    &&& r matches Ok(p) && p.0 == tgt && p.1 == task
                    &&& final(self).outcomes_view() == old(self).outcomes_view().push(true)
                    &&& final(self).worker_history(tgt) == old(self).worker_history(tgt).push(task)
                }
                &&& !old(self).worker_alive_spec(tgt) ==> {
                    &&& r == Err::<(usize, T), PoolError>(PoolError::Dispatch)
                    &&& final(self).outcomes_view() == old(self).outcomes_view().push(false)
                    &&& final(self).worker_history(tgt) == old(self).worker_history(tgt)
                }
                &&& forall|w: int|
                    0 <= w < n && w != tgt ==> #[trigger] final(self).worker_history(w)
                        == old(self).worker_history(w)
            }),
    {
        let ghost t = task;
        let n = self.workers.len();
        if n == 0 {
            return Err(PoolError::Dispatch);
        }
        let target = self.counter % n;
        proof {
            self.workers@[target as int].lemma_wf();
            lemma_route_indices_len(self.outcomes@, target as int, n as int);
            assert(self.workers@[target as int].history_view()
                == routed_tasks(self.log@, self.outcomes@, target as int, n as int));
        }
        let res = self.workers[target].send(task);
        self.counter = self.counter + 1;
        let ghost delivered = res is Ok;
        self.log = Ghost(self.log@.push(t));
        self.outcomes = Ghost(self.outcomes@.push(delivered));
        proof {
            assert forall|w: int| 0 <= w < self.workers@.len() implies (#[trigger] self.workers@[w]).history_view()
                == routed_tasks(self.log@, self.outcomes@, w, self.workers@.len() as int) by {
                lemma_routed_tasks_step(
                    old(self).log@,
                    old(self).outcomes@,
                    t,
                    delivered,
                    w,
                    self.workers@.len() as int,
                );
            }
        }
        match res {
            Ok(task) => Ok((target, task)),
            Err(e) => Err(e),
        }
    }

    /// Record that worker `w`'s consuming side has terminated; later
    /// submissions targeting it fail with a dispatch error.
    pub fn mark_worker_terminated(&mut self, w: usize)
        requires
            old(self).wf(),
            w < old(self).num_workers_spec(),
        ensures
            final(self).wf(),
            final(self).num_workers_spec() == old(self).num_workers_spec(),
            final(self).submitted_spec() == old(self).submitted_spec(),
            final(self).log_view() == old(self).log_view(),
            final(self).outcomes_view() == old(self).outcomes_view(),
            !final(self).worker_alive_spec(w as int),
            forall|v: int|
                0 <= v < old(self).num_workers_spec() && v != w ==> #[trigger] final(self).worker_alive_spec(v)
                    == old(self).worker_alive_spec(v),
            forall|v: int|
                0 <= v < old(self).num_workers_spec() ==> #[trigger] final(self).worker_history(v)
                    == old(self).worker_history(v),
    {
        self.workers[w].mark_terminated();
    }

    /// Begin shutdown: consume the pool and hand back the drain plan.
    ///
    /// The plan lists, for each worker in order, every task delivered to
    /// it, in arrival order — exactly the tasks the worker must finish
    /// before its thread may exit. The embedding program closes each
    /// worker's queue and waits for its thread, in order; nothing that was
    /// delivered is dropped.
    pub fn stop(self) -> (r: Ghost<Seq<Seq<T>>>)
        requires
            self.wf(),
        ensures
            r@.len() == self.num_workers_spec(),
            forall|w: int|
                0 <= w < self.num_workers_spec() ==> #[trigger] r@[w] == self.worker_history(w),
            forall|w: int|
                0 <= w < self.num_workers_spec() ==> #[trigger] r@[w]
                    == routed_tasks(self.log_view(), self.outcomes_view(), w, self.num_workers_spec()),
    {
        let ghost plan = Seq::new(
            self.workers@.len() as nat,
            |w: int| self.workers@[w].history_view(),
        );
        Ghost(plan)
    }

    /// The fixed number of workers.
    pub fn num_workers(&self) -> (r: usize)
        ensures
            r == self.num_workers_spec(),
    {
        self.workers.len()
    }

    /// How many submissions have been attempted so far.
    pub fn submitted(&self) -> (r: usize)
        ensures
            r == self.submitted_spec(),
    {
        self.counter
    }

    /// Whether worker `w`'s consuming side is still running.
    pub fn worker_is_alive(&self, w: usize) -> (r: bool)
        requires
            w < self.num_workers_spec(),
        ensures
            r == self.worker_alive_spec(w as int),
    {
        self.workers[w].is_alive()
    }

    /// How many tasks have been delivered to worker `w`.
    pub fn worker_task_count(&self, w: usize) -> (r: usize)
        requires
            self.wf(),
            w < self.num_workers_spec(),
        ensures
            r == self.worker_history(w as int).len(),
    {
        self.workers[w].task_count()
    }
}

/// Aggregate the join outcomes of shutdown: `true` for a worker whose
/// thread exited normally, `false` for one that exited abnormally. The
/// report is an error exactly when some worker terminated abnormally.
pub fn shutdown_report(join_ok: &Vec<bool>) -> (r: Result<(), PoolError>)
    ensures
        r == Ok::<(), PoolError>(()) <==> (forall|i: int| 0 <= i < join_ok@.len() ==> join_ok@[i]),
        r == Err::<(), PoolError>(PoolError::WorkerTermination) <==> (exists|i: int|
            0 <= i < join_ok@.len() && !join_ok@[i]),
{
    let mut i: usize = 0;
    while i < join_ok.len()
        invariant
            i <= join_ok@.len(),
            forall|j: int| 0 <= j < i ==> join_ok@[j],
        decreases join_ok@.len() - i,
    {
        if !join_ok[i] {
            return Err(PoolError::WorkerTermination);
        }
        i = i + 1;
    }
    Ok(())
}

} // verus!
