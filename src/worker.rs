//! The decisions of one benchmark worker: which index to operate on next, and
//! when to stop. The worker performs its range in ascending order and stops at
//! its first failed operation; it shares no state with its siblings.
use vstd::prelude::*;
use crate::partition::{
    covered, has_owner, lemma_partition_coverage, range_end, range_start, worker_range,
};

verus! {

/// What a worker does next.
#[derive(Clone, Copy, Debug, PartialEq, Eq, Structural)]
pub enum Step {
    /// Perform the operation on this item index.
    Run(u32),
    /// Every index of the range succeeded.
    Finished,
    /// An operation failed; the remaining indices are skipped.
    Failed,
}

/// The abstract state of a worker.
pub struct WorkerState {
    pub start: nat,
    pub next: nat,
    pub end: nat,
    pub failed: bool,
}

impl WorkerState {
    pub open spec fn wf(self) -> bool {
        self.start <= self.next <= self.end && self.end <= u32::MAX
    }

    pub open spec fn action(self) -> Step {
        if self.failed {
            Step::Failed
        } else if self.next < self.end {
            Step::Run(self.next as u32)
        } else {
            Step::Finished
        }
    }

    /// The state after the outcome of the current operation is known; a
    /// worker that is not running ignores it.
    pub open spec fn record(self, ok: bool) -> WorkerState {
        if self.failed || self.next >= self.end {
            self
        } else if ok {
            WorkerState { next: self.next + 1, ..self }
        } else {
            WorkerState { failed: true, ..self }
        }
    }
}

/// The state of worker `tid` before it starts.
pub open spec fn fresh(iteration: nat, threads: nat, tid: nat) -> WorkerState {
    WorkerState {
        start: range_start(iteration, threads, tid),
        next: range_start(iteration, threads, tid),
        end: range_end(iteration, threads, tid),
        failed: false,
    }
}

/// The indices a worker in state `s` operates on when its operations have the
/// given outcomes, in order.
pub open spec fn attempts(s: WorkerState, outcomes: Seq<bool>) -> Seq<nat>
    decreases outcomes.len(),
{
    if outcomes.len() == 0 || s.failed || s.next >= s.end {
        Seq::empty()
    } else {
        seq![s.next] + attempts(s.record(outcomes[0]), outcomes.drop_first())
    }
}

/// The state a worker reaches from `s` when its operations have the given outcomes.
pub open spec fn drive(s: WorkerState, outcomes: Seq<bool>) -> WorkerState
    decreases outcomes.len(),
{
    if outcomes.len() == 0 || s.failed || s.next >= s.end {
        s
    } else {
        drive(s.record(outcomes[0]), outcomes.drop_first())
    }
}

/// The indices from `a` up to, not including, `b`.
pub open spec fn index_range(a: nat, b: nat) -> Seq<nat> {
    Seq::new((b - a) as nat, |k: int| (a + k) as nat)
}

/// One benchmark worker.
pub struct Worker {
    start: u32,
    next: u32,
    end: u32,
    failed: bool,
}

impl View for Worker {
    type V = WorkerState;

    closed spec fn view(&self) -> WorkerState {
        WorkerState {
            start: self.start as nat,
            next: self.next as nat,
            end: self.end as nat,
            failed: self.failed,
        }
    }
}

impl Worker {
    #[verifier::type_invariant]
    spec fn inv(&self) -> bool {
        self.start <= self.next <= self.end
    }

    /// Worker `tid` of `threads`, sharing `iteration` items.
    pub fn new(iteration: u32, threads: u32, tid: u32) -> (r: Worker)
        requires
            0 < threads,
            tid < threads,
        ensures
            r@ == fresh(iteration as nat, threads as nat, tid as nat),
            r@.wf(),
    {
        let (start, end) = worker_range(iteration, threads, tid);
        Worker { start, next: start, end, failed: false }
    }

    /// What the worker does next.
    pub fn action(&self) -> (r: Step)
        ensures
            r == self@.action(),
    {
        proof {
            use_type_invariant(self);
        }
        if self.failed {
            Step::Failed
        } else if self.next < self.end {
            Step::Run(self.next)
        } else {
            Step::Finished
        }
    }

    /// Records the outcome of the operation that `action` asked for.
    pub fn record(&mut self, ok: bool)
        ensures
            final(self)@ == old(self)@.record(ok),
    {
        proof {
            use_type_invariant(&*self);
        }
        if !self.failed && self.next < self.end {
            if ok {
                self.next = self.next + 1;
            } else {
                self.failed = true;
            }
        }
    }

    /// Whether the worker has stopped, by success or failure.
    pub fn is_done(&self) -> (r: bool)
        ensures
            r == !(self@.action() is Run),
    {
        proof {
            use_type_invariant(self);
        }
        self.failed || self.next >= self.end
    }

    /// Whether the worker stopped on a failed operation.
    pub fn has_failed(&self) -> (r: bool)
        ensures
            r == self@.failed,
    {
        self.failed
    }
}

/// Attempted indices count up by one from the worker's next index and stay in
/// its range.
pub proof fn lemma_attempts_ascending(s: WorkerState, outcomes: Seq<bool>)
    requires
        s.wf(),
    ensures
        forall|k: int|
            0 <= k < attempts(s, outcomes).len() ==> #[trigger] attempts(s, outcomes)[k] == s.next
                + k && s.next + k < s.end,
        attempts(s, outcomes).len() <= outcomes.len(),
    decreases outcomes.len(),
{
    if outcomes.len() == 0 || s.failed || s.next >= s.end {
    } else {
        let t = s.record(outcomes[0]);
        lemma_attempts_ascending(t, outcomes.drop_first());
        let rest = attempts(t, outcomes.drop_first());
        if outcomes[0] {
            assert forall|k: int|
                0 <= k < attempts(s, outcomes).len() implies #[trigger] attempts(s, outcomes)[k]
                == s.next + k && s.next + k < s.end by {
                if k > 0 {
                    assert(attempts(s, outcomes)[k] == rest[k - 1]);
                }
            }
        } else {
            assert(rest.len() == 0);
        }
    }
}

/// A worker stops at its first failure: when the operation at position `j`
/// fails, it is the last one attempted, so no later index of the range is
/// touched.
pub proof fn lemma_fail_fast(s: WorkerState, outcomes: Seq<bool>, j: int)
    requires
        s.wf(),
        0 <= j < attempts(s, outcomes).len(),
        j < outcomes.len(),
        !outcomes[j],
    ensures
        attempts(s, outcomes).len() == j + 1,
        forall|k: int|
            0 <= k < attempts(s, outcomes).len() ==> #[trigger] attempts(s, outcomes)[k]
                <= attempts(s, outcomes)[j],
        drive(s, outcomes).failed,
    decreases outcomes.len(),
{
    lemma_attempts_ascending(s, outcomes);
    let t = s.record(outcomes[0]);
    if j == 0 {
        assert(t.failed);
        assert(attempts(t, outcomes.drop_first()).len() == 0);
        assert(drive(t, outcomes.drop_first()) == t);
    } else {
        assert(outcomes.drop_first()[j - 1] == outcomes[j]);
        lemma_fail_fast(t, outcomes.drop_first(), j - 1);
    }
}

/// A worker whose own operations all succeed performs every index of its
/// range, in order, and finishes. Its course depends on its own outcomes
/// alone, so a sibling's failure cannot cut it short.
pub proof fn lemma_completes_range(s: WorkerState, outcomes: Seq<bool>)
    requires
        s.wf(),
        !s.failed,
        outcomes.len() >= s.end - s.next,
        forall|k: int| 0 <= k < outcomes.len() ==> #[trigger] outcomes[k],
    ensures
        attempts(s, outcomes) == index_range(s.next, s.end),
        drive(s, outcomes).action() == Step::Finished,
    decreases s.end - s.next,
{
    if s.next >= s.end {
        assert(attempts(s, outcomes) =~= index_range(s.next, s.end));
    } else {
        let t = s.record(outcomes[0]);
        let rest = outcomes.drop_first();
        assert forall|k: int| 0 <= k < rest.len() implies #[trigger] rest[k] by {
            assert(rest[k] == outcomes[k + 1]);
        }
        lemma_completes_range(t, rest);
        assert(attempts(s, outcomes) =~= index_range(s.next, s.end));
    }
}

/// Every worker of a phase whose own operations succeed performs its whole
/// range, whatever the outcomes of the other workers.
pub proof fn lemma_no_cross_cancellation(
    iteration: nat,
    threads: nat,
    outcomes: Seq<Seq<bool>>,
    u: nat,
)
    requires
        0 < threads <= iteration <= u32::MAX,
        u < threads,
        outcomes.len() == threads,
        outcomes[u as int].len() >= range_end(iteration, threads, u) - range_start(iteration, threads, u),
        forall|k: int| 0 <= k < outcomes[u as int].len() ==> #[trigger] outcomes[u as int][k],
    ensures
        attempts(fresh(iteration, threads, u), outcomes[u as int]) == index_range(
            range_start(iteration, threads, u),
            range_end(iteration, threads, u),
        ),
        drive(fresh(iteration, threads, u), outcomes[u as int]).action() == Step::Finished,
{
    let c = iteration / threads;
    assert(u * c <= (u + 1) * c) by (nonlinear_arith);
    assert((u + 1) * c <= threads * c) by (nonlinear_arith)
        requires
            u < threads,
    ;
    assert(threads * (iteration / threads) <= iteration) by (nonlinear_arith)
        requires
            0 < threads,
    ;
    lemma_completes_range(fresh(iteration, threads, u), outcomes[u as int]);
}

/// A worker whose operations succeed `j` times and then fail performs the
/// first `j + 1` indices of what remains of its range, then stops failed.
pub proof fn lemma_fails_after_prefix(s: WorkerState, outcomes: Seq<bool>, j: int)
    requires
        s.wf(),
        !s.failed,
        0 <= j < s.end - s.next,
        j < outcomes.len(),
        forall|k: int| 0 <= k < j ==> #[trigger] outcomes[k],
        !outcomes[j],
    ensures
        attempts(s, outcomes) == index_range(s.next, (s.next + j + 1) as nat),
        drive(s, outcomes).action() == Step::Failed,
    decreases j,
{
    let t = s.record(outcomes[0]);
    let rest = outcomes.drop_first();
    if j == 0 {
        assert(attempts(t, rest).len() == 0);
        assert(drive(t, rest) == t);
    } else {
        assert forall|k: int| 0 <= k < j - 1 implies #[trigger] rest[k] by {
            assert(rest[k] == outcomes[k + 1]);
        }
        assert(rest[j - 1] == outcomes[j]);
        lemma_fails_after_prefix(t, rest, j - 1);
    }
    assert(attempts(s, outcomes) =~= index_range(s.next, (s.next + j + 1) as nat));
}

proof fn lemma_fresh_wf(iteration: nat, threads: nat, u: nat)
    requires
        0 < threads <= iteration <= u32::MAX,
        u < threads,
    ensures
        fresh(iteration, threads, u).wf(),
{
    let c = iteration / threads;
    assert(u * c <= (u + 1) * c) by (nonlinear_arith);
    assert((u + 1) * c <= threads * c) by (nonlinear_arith)
        requires
            u < threads,
    ;
    assert(threads * (iteration / threads) <= iteration) by (nonlinear_arith)
        requires
            0 < threads,
    ;
}

/// When worker `t`'s operation at position `j` of its range fails and every
/// other operation succeeds, worker `t` performs exactly the first `j + 1`
/// indices of its range and stops failed, so the phase is not a success
/// (`phase_outcome` reports `BenchFailed`), while every other worker performs
/// its whole range and finishes.
pub proof fn lemma_single_failing_worker(
    iteration: nat,
    threads: nat,
    outcomes: Seq<Seq<bool>>,
    t: nat,
    j: int,
)
    requires
        0 < threads <= iteration <= u32::MAX,
        t < threads,
        outcomes.len() == threads,
        0 <= j < range_end(iteration, threads, t) - range_start(iteration, threads, t),
        j < outcomes[t as int].len(),
        forall|k: int| 0 <= k < j ==> #[trigger] outcomes[t as int][k],
        !outcomes[t as int][j],
        forall|u: int|
            0 <= u < threads && u != t ==> #[trigger] outcomes[u].len() >= range_end(
                iteration,
                threads,
                u as nat,
            ) - range_start(iteration, threads, u as nat),
        forall|u: int, k: int|
            0 <= u < threads && u != t && 0 <= k < outcomes[u].len() ==> #[trigger] outcomes[u][k],
    ensures
        attempts(fresh(iteration, threads, t), outcomes[t as int]) == index_range(
            range_start(iteration, threads, t),
            (range_start(iteration, threads, t) + j + 1) as nat,
        ),
        drive(fresh(iteration, threads, t), outcomes[t as int]).action() == Step::Failed,
        forall|u: nat|
            u < threads && u != t ==> #[trigger] attempts(fresh(iteration, threads, u), outcomes[u as int])
                == index_range(range_start(iteration, threads, u), range_end(iteration, threads, u))
                && drive(fresh(iteration, threads, u), outcomes[u as int]).action() == Step::Finished,
{
    lemma_fresh_wf(iteration, threads, t);
    lemma_fails_after_prefix(fresh(iteration, threads, t), outcomes[t as int], j);
    assert forall|u: nat| u < threads && u != t implies #[trigger] attempts(
        fresh(iteration, threads, u),
        outcomes[u as int],
    ) == index_range(range_start(iteration, threads, u), range_end(iteration, threads, u))
        && drive(fresh(iteration, threads, u), outcomes[u as int]).action() == Step::Finished by {
        assert(outcomes[u as int].len() >= range_end(iteration, threads, u) - range_start(
            iteration,
            threads,
            u,
        ));
        assert forall|k: int| 0 <= k < outcomes[u as int].len() implies #[trigger] outcomes[u as int][k] by {
            assert(outcomes[u as int][k]);
        }
        lemma_no_cross_cancellation(iteration, threads, outcomes, u);
    }
}

/// Whether some worker of a phase performs index `i`, when its operations
/// have the given outcomes.
pub open spec fn performed(iteration: nat, threads: nat, outcomes: Seq<Seq<bool>>, i: nat) -> bool {
    exists|u: nat|
        u < threads && #[trigger] attempts(fresh(iteration, threads, u), outcomes[u as int]).contains(
            i,
        )
}

/// When every operation of a phase succeeds, every worker performs its whole
/// range in order and finishes, and every index below
/// `threads * (iteration / threads)` is performed by some worker.
pub proof fn lemma_clean_phase(iteration: nat, threads: nat, outcomes: Seq<Seq<bool>>)
    requires
        0 < threads <= iteration <= u32::MAX,
        outcomes.len() == threads,
        forall|u: int|
            0 <= u < threads ==> #[trigger] outcomes[u].len() >= range_end(
                iteration,
                threads,
                u as nat,
            ) - range_start(iteration, threads, u as nat),
        forall|u: int, k: int|
            0 <= u < threads && 0 <= k < outcomes[u].len() ==> #[trigger] outcomes[u][k],
    ensures
        forall|u: nat|
            u < threads ==> #[trigger] attempts(fresh(iteration, threads, u), outcomes[u as int])
                == index_range(range_start(iteration, threads, u), range_end(iteration, threads, u))
                && drive(fresh(iteration, threads, u), outcomes[u as int]).action() == Step::Finished,
        forall|i: nat|
            i < covered(iteration, threads) ==> #[trigger] performed(
                iteration,
                threads,
                outcomes,
                i,
            ),
{
    assert forall|u: nat| u < threads implies #[trigger] attempts(
        fresh(iteration, threads, u),
        outcomes[u as int],
    ) == index_range(range_start(iteration, threads, u), range_end(iteration, threads, u))
        && drive(fresh(iteration, threads, u), outcomes[u as int]).action() == Step::Finished by {
        assert(outcomes[u as int].len() >= range_end(iteration, threads, u) - range_start(
            iteration,
            threads,
            u,
        ));
        assert forall|k: int| 0 <= k < outcomes[u as int].len() implies #[trigger] outcomes[u as int][k] by {
            assert(outcomes[u as int][k]);
        }
        lemma_no_cross_cancellation(iteration, threads, outcomes, u);
    }
    lemma_partition_coverage(iteration, threads);
    assert forall|i: nat| i < covered(iteration, threads) implies #[trigger] performed(
        iteration,
        threads,
        outcomes,
        i,
    ) by {
        assert(has_owner(iteration, threads, i));
        let u = choose|u: nat| u < threads && #[trigger] crate::partition::assigned(iteration, threads, u, i);
        let a = attempts(fresh(iteration, threads, u), outcomes[u as int]);
        let st = range_start(iteration, threads, u);
        assert(a == index_range(st, range_end(iteration, threads, u)));
        assert(st <= i < range_end(iteration, threads, u));
        assert(0 <= i - st < a.len());
        assert(a[i - st] == i);
        assert(a.contains(i));
    }
}

} // verus!
