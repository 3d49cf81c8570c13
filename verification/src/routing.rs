//! The mathematical model of round-robin dispatch.
//!
//! A pool records one attempt log entry per submission: the attempt with
//! submission index `i` targets worker `i % n`, and either succeeds (the
//! task is delivered to that worker's queue) or fails (the worker's
//! consuming side had terminated). `route_indices` recovers, from the
//! sequence of attempt outcomes, the submission indices that worker `w`
//! received, in arrival order; `routed_tasks` maps them back to the tasks
//! themselves.

use vstd::prelude::*;

use vstd::arithmetic::div_mod::lemma_fundamental_div_mod;
use vstd::arithmetic::div_mod::lemma_mod_multiples_vanish;
use vstd::arithmetic::div_mod::lemma_small_mod;

verus! {

/// The submission indices delivered to worker `w` of an `n`-worker pool,
/// in arrival order, given the per-attempt delivery outcomes.
pub open spec fn route_indices(outcomes: Seq<bool>, w: int, n: int) -> Seq<int>
    decreases outcomes.len(),
{
    if outcomes.len() == 0 {
        Seq::empty()
    } else {
        let prefix = route_indices(outcomes.drop_last(), w, n);
        if outcomes.last() && (outcomes.len() - 1) % n == w {
            prefix.push(outcomes.len() - 1)
        } else {
            prefix
        }
    }
}

/// The tasks delivered to worker `w`, in arrival order, given the full
/// submission log and the per-attempt delivery outcomes.
pub open spec fn routed_tasks<T>(log: Seq<T>, outcomes: Seq<bool>, w: int, n: int) -> Seq<T> {
    route_indices(outcomes, w, n).map_values(|i: int| log[i])
}

/// A worker receives at most as many tasks as there were attempts.
pub proof fn lemma_route_indices_len(outcomes: Seq<bool>, w: int, n: int)
    ensures
        route_indices(outcomes, w, n).len() <= outcomes.len(),
    decreases outcomes.len(),
{
    if outcomes.len() > 0 {
        lemma_route_indices_len(outcomes.drop_last(), w, n);
    }
}

/// Every entry of a worker's index sequence is a valid submission index,
/// is congruent to the worker's position modulo the pool size, and was
/// delivered.
pub proof fn lemma_route_indices_entry(outcomes: Seq<bool>, w: int, n: int, j: int)
    requires
        0 <= j < route_indices(outcomes, w, n).len(),
    ensures
        0 <= route_indices(outcomes, w, n)[j] < outcomes.len(),
        route_indices(outcomes, w, n)[j] % n == w,
        outcomes[route_indices(outcomes, w, n)[j]],
    decreases outcomes.len(),
{
    if outcomes.len() > 0 {
        let prefix = route_indices(outcomes.drop_last(), w, n);
        if j < prefix.len() {
            lemma_route_indices_entry(outcomes.drop_last(), w, n, j);
        }
    }
}

/// A worker's index sequence is strictly increasing: tasks arrive at a
/// worker in submission order.
pub proof fn lemma_route_indices_sorted(outcomes: Seq<bool>, w: int, n: int, j: int, k: int)
    requires
        0 <= j < k < route_indices(outcomes, w, n).len(),
    ensures
        route_indices(outcomes, w, n)[j] < route_indices(outcomes, w, n)[k],
    decreases outcomes.len(),
{
    if outcomes.len() > 0 {
        let prefix = route_indices(outcomes.drop_last(), w, n);
        if k < prefix.len() {
            lemma_route_indices_sorted(outcomes.drop_last(), w, n, j, k);
        } else {
            lemma_route_indices_entry(outcomes.drop_last(), w, n, j);
        }
    }
}

/// Completeness: every delivered submission index congruent to `w` appears
/// in worker `w`'s index sequence.
pub proof fn lemma_route_indices_complete(outcomes: Seq<bool>, w: int, n: int, i: int)
    requires
        n >= 1,
        0 <= i < outcomes.len(),
        outcomes[i],
        i % n == w,
    ensures
        route_indices(outcomes, w, n).contains(i),
    decreases outcomes.len(),
{
    let inds = route_indices(outcomes, w, n);
    if i == outcomes.len() - 1 {
        assert(inds[inds.len() - 1] == i);
    } else {
        lemma_route_indices_complete(outcomes.drop_last(), w, n, i);
        let prefix = route_indices(outcomes.drop_last(), w, n);
        let j = choose|j: int| 0 <= j < prefix.len() && prefix[j] == i;
        assert(inds[j] == i);
    }
}

/// A submission index appears in the index sequence of at most one worker.
pub proof fn lemma_route_indices_unique(outcomes: Seq<bool>, w1: int, w2: int, n: int, i: int)
    requires
        route_indices(outcomes, w1, n).contains(i),
        route_indices(outcomes, w2, n).contains(i),
    ensures
        w1 == w2,
{
    let inds1 = route_indices(outcomes, w1, n);
    let inds2 = route_indices(outcomes, w2, n);
    let j1 = choose|j: int| 0 <= j < inds1.len() && inds1[j] == i;
    let j2 = choose|j: int| 0 <= j < inds2.len() && inds2[j] == i;
    lemma_route_indices_entry(outcomes, w1, n, j1);
    lemma_route_indices_entry(outcomes, w2, n, j2);
}

/// With every attempt delivered, worker `w`'s index sequence is exactly
/// `w, w + n, w + 2n, ...`, as far as the submission count reaches.
pub proof fn lemma_route_indices_all_delivered(outcomes: Seq<bool>, w: int, n: int)
    requires
        n >= 1,
        0 <= w < n,
        forall|i: int| 0 <= i < outcomes.len() ==> outcomes[i],
    ensures
        forall|j: int|
            0 <= j < route_indices(outcomes, w, n).len() ==> #[trigger] route_indices(
                outcomes,
                w,
                n,
            )[j] == w + j * n,
        outcomes.len() <= w + route_indices(outcomes, w, n).len() * n,
        route_indices(outcomes, w, n).len() > 0 ==> w + (route_indices(outcomes, w, n).len() - 1)
            * n < outcomes.len(),
    decreases outcomes.len(),
{
    if outcomes.len() > 0 {
        let prev = outcomes.drop_last();
        assert forall|i: int| 0 <= i < prev.len() implies prev[i] by {
            assert(outcomes[i]);
        }
        lemma_route_indices_all_delivered(prev, w, n);
        let prefix = route_indices(prev, w, n);
        let inds = route_indices(outcomes, w, n);
        let k = prev.len() as int;
        let len = prefix.len() as int;
        lemma_mod_multiples_vanish(len, w, n);
        lemma_small_mod(w as nat, n as nat);
        assert((n * len + w) % n == w);
        if k % n == w {
            lemma_fundamental_div_mod(k, n);
            let q = k / n;
            if len == 0 {
                lemma_small_mod(k as nat, n as nat);
                assert(k == w);
                assert(k == w + len * n);
            } else {
                assert(q == len) by (nonlinear_arith)
                    requires
                        n >= 1,
                        k == n * q + w,
                        k <= w + len * n,
                        w + (len - 1) * n < k,
                ;
                assert(k == w + len * n) by (nonlinear_arith)
                    requires
                        k == n * q + w,
                        q == len,
                ;
            }
            assert(inds[len] == w + len * n);
            assert(outcomes.len() <= w + inds.len() * n) by (nonlinear_arith)
                requires
                    n >= 1,
                    outcomes.len() == k + 1,
                    k == w + len * n,
                    inds.len() == len + 1,
            ;
        } else {
            if k == w + len * n {
                assert(k % n == w);
            }
        }
    }
}

/// How one more attempt changes a worker's task sequence: the target worker
/// of a delivered attempt gains the task at the end of its queue, and every
/// other worker's queue is untouched.
pub proof fn lemma_routed_tasks_step<T>(log: Seq<T>, outcomes: Seq<bool>, task: T, ok: bool, w: int, n: int)
    requires
        log.len() == outcomes.len(),
    ensures
        ok && outcomes.len() as int % n == w ==> routed_tasks(log.push(task), outcomes.push(ok), w, n)
            == routed_tasks(log, outcomes, w, n).push(task),
        !(ok && outcomes.len() as int % n == w) ==> routed_tasks(log.push(task), outcomes.push(ok), w, n)
            == routed_tasks(log, outcomes, w, n),
{
    let outcomes2 = outcomes.push(ok);
    let log2 = log.push(task);
    assert(outcomes2.drop_last() =~= outcomes);
    let inds = route_indices(outcomes, w, n);
    let inds2 = route_indices(outcomes2, w, n);
    assert forall|j: int| 0 <= j < inds.len() implies log2[#[trigger] inds[j]] == log[inds[j]] by {
        lemma_route_indices_entry(outcomes, w, n, j);
    }
    if ok && outcomes.len() as int % n == w {
        assert(inds2 == inds.push(outcomes.len() as int));
        assert(routed_tasks(log2, outcomes2, w, n) =~= routed_tasks(log, outcomes, w, n).push(task));
    } else {
        assert(inds2 == inds);
        assert(routed_tasks(log2, outcomes2, w, n) =~= routed_tasks(log, outcomes, w, n));
    }
}

/// With nothing submitted yet, every worker's queue is empty.
pub proof fn lemma_routed_tasks_empty<T>(w: int, n: int)
    ensures
        routed_tasks(Seq::<T>::empty(), Seq::<bool>::empty(), w, n) == Seq::<T>::empty(),
{
    assert(routed_tasks(Seq::<T>::empty(), Seq::<bool>::empty(), w, n) =~= Seq::<T>::empty());
}

} // verus!
