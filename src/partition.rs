//! Contiguous, disjoint work ranges for a fixed number of workers.
//!
//! Each worker gets `iteration / threads` items; worker `t` owns
//! `[t * count, (t + 1) * count)`. The `iteration % threads` trailing items are
//! deliberately left unassigned, so that every worker performs exactly the
//! same number of operations.
use vstd::prelude::*;

verus! {

/// Number of items each worker performs.
pub open spec fn share(iteration: nat, threads: nat) -> nat {
    iteration / threads
}

/// First index owned by worker `tid`.
pub open spec fn range_start(iteration: nat, threads: nat, tid: nat) -> nat {
    tid * share(iteration, threads)
}

/// One past the last index owned by worker `tid`.
pub open spec fn range_end(iteration: nat, threads: nat, tid: nat) -> nat {
    (tid + 1) * share(iteration, threads)
}

/// Whether index `i` belongs to worker `tid`.
pub open spec fn assigned(iteration: nat, threads: nat, tid: nat, i: nat) -> bool {
    range_start(iteration, threads, tid) <= i < range_end(iteration, threads, tid)
}

/// Whether some worker owns index `i`.
pub open spec fn has_owner(iteration: nat, threads: nat, i: nat) -> bool {
    exists|t: nat| t < threads && #[trigger] assigned(iteration, threads, t, i)
}

/// Number of indices covered by all workers together.
pub open spec fn covered(iteration: nat, threads: nat) -> nat {
    threads * share(iteration, threads)
}

proof fn lemma_range_fits(iteration: nat, threads: nat, tid: nat)
    requires
        0 < threads,
        tid < threads,
    ensures
        range_start(iteration, threads, tid) <= range_end(iteration, threads, tid),
        range_end(iteration, threads, tid) <= covered(iteration, threads),
        covered(iteration, threads) <= iteration,
{
    let c = share(iteration, threads);
    assert(tid * c <= (tid + 1) * c) by (nonlinear_arith);
    assert((tid + 1) * c <= threads * c) by (nonlinear_arith)
        requires
            tid < threads,
    ;
    assert(threads * (iteration / threads) <= iteration) by (nonlinear_arith)
        requires
            0 < threads,
    ;
}

/// The half-open range `(start, end)` of item indices that worker `tid`
/// performs, out of `iteration` items shared among `threads` workers.
pub fn worker_range(iteration: u32, threads: u32, tid: u32) -> (r: (u32, u32))
    requires
        0 < threads,
        tid < threads,
    ensures
        r.0 == range_start(iteration as nat, threads as nat, tid as nat),
        r.1 == range_end(iteration as nat, threads as nat, tid as nat),
        r.0 <= r.1,
{
    proof {
        lemma_range_fits(iteration as nat, threads as nat, tid as nat);
    }
    let count = iteration / threads;
    (tid * count, (tid + 1) * count)
}

/// Every index below `threads * (iteration / threads)` belongs to exactly one
/// worker, no index at or above it belongs to any, and the workers' ranges
/// follow one another without gaps in worker order, starting at zero.
pub proof fn lemma_partition_coverage(iteration: nat, threads: nat)
    requires
        0 < threads <= iteration,
    ensures
        forall|i: nat| i < covered(iteration, threads) <==> #[trigger] has_owner(iteration, threads, i),
        forall|t1: nat, t2: nat, i: nat|
            #![trigger assigned(iteration, threads, t1, i), assigned(iteration, threads, t2, i)]
            assigned(iteration, threads, t1, i) && assigned(iteration, threads, t2, i) ==> t1
                == t2,
        range_start(iteration, threads, 0) == 0,
        range_end(iteration, threads, (threads - 1) as nat) == covered(iteration, threads),
        forall|t: nat|
            t + 1 < threads ==> #[trigger] range_end(iteration, threads, t) == range_start(
                iteration,
                threads,
                t + 1,
            ),
{
    let c = share(iteration, threads);
    assert forall|i: nat| i < covered(iteration, threads) <==> #[trigger] has_owner(iteration, threads, i) by {
        if i < covered(iteration, threads) {
            let t = i / c;
            assert(c > 0) by (nonlinear_arith)
                requires
                    i < threads * c,
            ;
            assert(t * c <= i < (t + 1) * c) by (nonlinear_arith)
                requires
                    c > 0,
                    t == i / c,
            ;
            assert(t < threads) by (nonlinear_arith)
                requires
                    i < threads * c,
                    t * c <= i,
                    c > 0,
            ;
            assert(assigned(iteration, threads, t, i));
        }
        if has_owner(iteration, threads, i) {
            let t = choose|t: nat| t < threads && #[trigger] assigned(iteration, threads, t, i);
            assert((t + 1) * c <= threads * c) by (nonlinear_arith)
                requires
                    t < threads,
            ;
        }
    }
    assert forall|t1: nat, t2: nat, i: nat|
        #![trigger assigned(iteration, threads, t1, i), assigned(iteration, threads, t2, i)]
        assigned(iteration, threads, t1, i) && assigned(iteration, threads, t2, i) implies t1
        == t2 by {
        if t1 < t2 {
            assert((t1 + 1) * c <= t2 * c) by (nonlinear_arith)
                requires
                    t1 < t2,
            ;
        } else if t2 < t1 {
            assert((t2 + 1) * c <= t1 * c) by (nonlinear_arith)
                requires
                    t2 < t1,
            ;
        }
    }
    assert forall|t: nat| t + 1 < threads implies #[trigger] range_end(iteration, threads, t)
        == range_start(iteration, threads, t + 1) by {}
}

} // verus!
