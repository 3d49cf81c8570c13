//! The pool's dispatch laws, stated and proved over any well-formed pool.
//!
//! Every pool built by `ThreadPool::new` is well-formed, and every method
//! keeps it so; these laws therefore hold of every reachable pool state.

use vstd::prelude::*;

use crate::pool::ThreadPool;
use crate::routing::lemma_route_indices_all_delivered;
use crate::routing::lemma_route_indices_complete;
use crate::routing::lemma_route_indices_sorted;
use crate::routing::lemma_route_indices_unique;
use crate::routing::route_indices;

verus! {

/// Deterministic routing: a delivered submission `i` sits in the queue of
/// worker `i mod N` and of no other worker, and that worker's queue holds
/// the submitted task itself.
pub proof fn lemma_deterministic_routing<T>(p: ThreadPool<T>, i: int)
    requires
        p.wf(),
        0 <= i < p.submitted_spec(),
        p.delivered_at(i),
    ensures
        p.queued_to(i % p.num_workers_spec(), i),
        forall|w: int| #[trigger] p.queued_to(w, i) ==> w == i % p.num_workers_spec(),
        p.worker_history(i % p.num_workers_spec()).contains(p.log_view()[i]),
{
    p.lemma_wf();
    let n = p.num_workers_spec();
    lemma_route_indices_complete(p.outcomes_view(), i % n, n, i);
    assert forall|w: int| #[trigger] p.queued_to(w, i) implies w == i % n by {
        lemma_route_indices_unique(p.outcomes_view(), w, i % n, n, i);
    }
    let inds = route_indices(p.outcomes_view(), i % n, n);
    let j = choose|j: int| 0 <= j < inds.len() && inds[j] == i;
    assert(p.worker_history(i % n)[j] == p.log_view()[i]);
}

/// Per-worker FIFO: positions `j < k` of a worker's queue hold tasks whose
/// submission indices are in the same order, so the earlier-submitted task
/// is completed before the later one is started.
pub proof fn lemma_per_worker_fifo<T>(p: ThreadPool<T>, w: int, j: int, k: int)
    requires
        p.wf(),
        0 <= w < p.num_workers_spec(),
        0 <= j < k < p.worker_history(w).len(),
    ensures
        ({
            let inds = route_indices(p.outcomes_view(), w, p.num_workers_spec());
            &&& inds[j] < inds[k]
            &&& p.worker_history(w)[j] == p.log_view()[inds[j]]
            &&& p.worker_history(w)[k] == p.log_view()[inds[k]]
        }),
{
    p.lemma_wf();
    lemma_route_indices_sorted(p.outcomes_view(), w, p.num_workers_spec(), j, k);
}

/// Exactly once: a delivered submission occupies exactly one position of
/// exactly one worker's queue.
pub proof fn lemma_delivered_exactly_once<T>(p: ThreadPool<T>, i: int)
    requires
        p.wf(),
        0 <= i < p.submitted_spec(),
        p.delivered_at(i),
    ensures
        p.queued_to(i % p.num_workers_spec(), i),
        forall|w: int| #[trigger] p.queued_to(w, i) ==> w == i % p.num_workers_spec(),
        ({
            let inds = route_indices(p.outcomes_view(), i % p.num_workers_spec(), p.num_workers_spec());
            forall|j: int, k: int|
                0 <= j < inds.len() && 0 <= k < inds.len() && #[trigger] inds[j] == i
                    && #[trigger] inds[k] == i ==> j == k
        }),
{
    lemma_deterministic_routing(p, i);
    let n = p.num_workers_spec();
    let inds = route_indices(p.outcomes_view(), i % n, n);
    assert forall|j: int, k: int|
        0 <= j < inds.len() && 0 <= k < inds.len() && #[trigger] inds[j] == i && #[trigger] inds[k]
            == i implies j == k by {
        if j < k {
            lemma_route_indices_sorted(p.outcomes_view(), i % n, n, j, k);
        } else if k < j {
            lemma_route_indices_sorted(p.outcomes_view(), i % n, n, k, j);
        }
    }
}

/// Full-delivery layout: when every submission was delivered, worker `w`
/// of an `n`-worker pool holds exactly the tasks of submissions
/// `w, w + n, w + 2n, ...`, in that order. Position `j` of its queue is
/// the task submitted as number `w + j * n`, and the queue length is
/// pinned from both sides, so across the pool every one of the `K`
/// submitted tasks sits in exactly one queue position.
pub proof fn lemma_full_delivery_layout<T>(p: ThreadPool<T>, w: int)
    requires
        p.wf(),
        0 <= w < p.num_workers_spec(),
        forall|i: int| 0 <= i < p.submitted_spec() ==> p.delivered_at(i),
    ensures
        forall|j: int|
            0 <= j < p.worker_history(w).len() ==> #[trigger] p.worker_history(w)[j]
                == p.log_view()[w + j * p.num_workers_spec()],
        p.submitted_spec() <= w + p.worker_history(w).len() * p.num_workers_spec(),
        p.worker_history(w).len() > 0 ==> w + (p.worker_history(w).len() - 1)
            * p.num_workers_spec() < p.submitted_spec(),
{
    p.lemma_wf();
    let n = p.num_workers_spec();
    assert forall|i: int| 0 <= i < p.outcomes_view().len() implies p.outcomes_view()[i] by {
        assert(p.delivered_at(i));
    }
    lemma_route_indices_all_delivered(p.outcomes_view(), w, n);
    let inds = route_indices(p.outcomes_view(), w, n);
    assert forall|j: int| 0 <= j < p.worker_history(w).len() implies #[trigger] p.worker_history(
        w,
    )[j] == p.log_view()[w + j * n] by {
        assert(inds[j] == w + j * n);
    }
}

/// No task loss: with every submission delivered, the drain plan that
/// `ThreadPool::stop` hands over covers each of the submitted tasks — each
/// sits in its worker's queue, and shutdown waits for every queue.
pub proof fn lemma_no_task_lost<T>(p: ThreadPool<T>)
    requires
        p.wf(),
        forall|i: int| 0 <= i < p.submitted_spec() ==> p.delivered_at(i),
    ensures
        forall|i: int|
            0 <= i < p.submitted_spec() ==> #[trigger] p.worker_history(i % p.num_workers_spec())
                .contains(p.log_view()[i]),
        forall|i: int, w: int|
            0 <= i < p.submitted_spec() && #[trigger] p.queued_to(w, i) ==> w == i
                % p.num_workers_spec(),
{
    assert forall|i: int|
        0 <= i < p.submitted_spec() implies #[trigger] p.worker_history(i % p.num_workers_spec())
        .contains(p.log_view()[i]) by {
        lemma_deterministic_routing(p, i);
    }
    assert forall|i: int, w: int|
        0 <= i < p.submitted_spec() && #[trigger] p.queued_to(w, i) implies w == i
        % p.num_workers_spec() by {
        lemma_deterministic_routing(p, i);
    }
}

} // verus!
