//! Phase results and the order of a benchmark: prepare, run the write phase,
//! run the read phase, then turn the elapsed times into rates. A failure at
//! any point ends the run; nothing after it is attempted.
use vstd::prelude::*;
use crate::error::{BenchError, ServiceError};
use crate::option::BenchOption;
use crate::path::{decimal, decimal_text};
use crate::worker::{Step, Worker};
use vstd::string::StringExecFns;

verus! {

/// Nanoseconds in a second.
pub const NANOS_PER_SEC: u64 = 1_000_000_000;

/// Rates are held in units of 10^-12 operations per second.
pub const RATE_SCALE: u64 = 1_000_000_000_000;

/// Operations per second in units of 10^-12, rounded down, for `iteration`
/// operations over `elapsed_nanos` nanoseconds.
pub open spec fn rate_of(iteration: nat, elapsed_nanos: nat) -> nat {
    (iteration * (RATE_SCALE as nat) * (NANOS_PER_SEC as nat) / elapsed_nanos) as nat
}

/// Any positive number of operations over any elapsed time a `u64` holds
/// gives a positive rate.
pub proof fn lemma_rate_positive(iteration: nat, elapsed_nanos: nat)
    requires
        0 < iteration,
        0 < elapsed_nanos <= u64::MAX,
    ensures
        rate_of(iteration, elapsed_nanos) > 0,
{
    let scaled = iteration * (RATE_SCALE as nat) * (NANOS_PER_SEC as nat);
    assert(scaled >= 1_000_000_000_000_000_000_000) by (nonlinear_arith)
        requires
            scaled == iteration * (RATE_SCALE as nat) * (NANOS_PER_SEC as nat),
            iteration >= 1,
            RATE_SCALE == 1_000_000_000_000u64,
            NANOS_PER_SEC == 1_000_000_000u64,
    ;
    assert(scaled / elapsed_nanos >= 1) by (nonlinear_arith)
        requires
            scaled >= elapsed_nanos,
            elapsed_nanos > 0,
    ;
}

/// The rate of `iteration` operations over `elapsed_nanos` nanoseconds, in
/// units of 10^-12 operations per second; `None` when no time elapsed.
pub fn throughput(iteration: u32, elapsed_nanos: u64) -> (r: Option<u128>)
    ensures
        r is None <==> elapsed_nanos == 0,
        r matches Some(v) ==> v == rate_of(iteration as nat, elapsed_nanos as nat),
        r matches Some(v) ==> (iteration > 0 ==> v > 0),
{
    if elapsed_nanos == 0 {
        return None;
    }
    proof {
        assert((iteration as u128) * (RATE_SCALE as u128) * (NANOS_PER_SEC as u128) <= (
        u32::MAX as u128) * 1_000_000_000_000u128 * 1_000_000_000u128) by (nonlinear_arith)
            requires
                iteration <= u32::MAX,
                RATE_SCALE == 1_000_000_000_000u64,
                NANOS_PER_SEC == 1_000_000_000u64,
        ;
        if iteration > 0 {
            lemma_rate_positive(iteration as nat, elapsed_nanos as nat);
        }
    }
    let scaled: u128 = (iteration as u128) * (RATE_SCALE as u128) * (NANOS_PER_SEC as u128);
    Some(scaled / (elapsed_nanos as u128))
}

/// The measured outcome of a whole benchmark.
#[derive(Clone, Copy, Debug, PartialEq, Eq, Structural)]
pub struct BenchResult {
    /// Wall-clock duration of the read phase, in nanoseconds.
    pub elapsed_nanos: u64,
    /// Writes per second, in units of 10^-12.
    pub tps: u128,
    /// Reads per second, in units of 10^-12.
    pub qps: u128,
}

/// Whether every worker of a phase completed its range.
pub open spec fn all_finished(workers: Seq<Worker>) -> bool {
    forall|i: int| 0 <= i < workers.len() ==> #[trigger] workers[i]@.action() == Step::Finished
}

/// The outcome of a phase once all its workers have stopped: the elapsed time
/// when every worker completed its range, else `BenchFailed`.
pub fn phase_outcome(workers: &Vec<Worker>, elapsed_nanos: u64) -> (r: Result<u64, BenchError>)
    ensures
        r is Ok <==> all_finished(workers@),
        r matches Ok(v) ==> v == elapsed_nanos,
        r is Err ==> r == Err::<u64, BenchError>(BenchError::BenchFailed),
{
    let mut i: usize = 0;
    while i < workers.len()
        invariant
            0 <= i <= workers.len(),
            forall|j: int| 0 <= j < i ==> #[trigger] workers@[j]@.action() == Step::Finished,
        decreases workers.len() - i,
    {
        if workers[i].action() != Step::Finished {
            return Err(BenchError::BenchFailed);
        }
        i = i + 1;
    }
    Ok(elapsed_nanos)
}

/// Where a benchmark stands.
#[derive(Clone, Copy, Debug, PartialEq, Eq, Structural)]
pub enum BenchStage {
    Preparing,
    Writing,
    /// Reading, after a write phase of this many nanoseconds.
    Reading(u64),
    Reported(BenchResult),
    Aborted(BenchError),
}

/// What a benchmark asks for next.
#[derive(Clone, Copy, Debug, PartialEq, Eq, Structural)]
pub enum BenchAction {
    /// Prepare the namespace.
    Prepare,
    /// Run the write phase.
    RunWritePhase,
    /// Run the read phase.
    RunReadPhase,
    /// The benchmark is complete with this result.
    Report(BenchResult),
    /// The benchmark failed with this error.
    Abort(BenchError),
}

/// What the benchmark learns from the step it asked for.
#[derive(Clone, Copy, Debug)]
pub enum BenchEvent {
    /// Preparation ended with this result.
    Prepared(Result<(), ServiceError>),
    /// A phase ended: its elapsed nanoseconds, or why it failed.
    PhaseEnded(Result<u64, BenchError>),
}

/// The action asked for in `stage`.
pub open spec fn bench_action(stage: BenchStage) -> BenchAction {
    match stage {
        BenchStage::Preparing => BenchAction::Prepare,
        BenchStage::Writing => BenchAction::RunWritePhase,
        BenchStage::Reading(_) => BenchAction::RunReadPhase,
        BenchStage::Reported(r) => BenchAction::Report(r),
        BenchStage::Aborted(e) => BenchAction::Abort(e),
    }
}

/// The stage after `event`, for a benchmark of `iteration` operations per
/// phase. An event that does not answer the stage's action leaves it as is.
pub open spec fn bench_after(iteration: nat, stage: BenchStage, event: BenchEvent) -> BenchStage {
    match (stage, event) {
        (BenchStage::Preparing, BenchEvent::Prepared(Ok(_))) => BenchStage::Writing,
        (BenchStage::Preparing, BenchEvent::Prepared(Err(e))) => BenchStage::Aborted(
            BenchError::Prepare(e),
        ),
        (BenchStage::Writing, BenchEvent::PhaseEnded(Ok(w))) => BenchStage::Reading(w),
        (BenchStage::Writing, BenchEvent::PhaseEnded(Err(e))) => BenchStage::Aborted(e),
        (BenchStage::Reading(w), BenchEvent::PhaseEnded(Ok(d))) => if w == 0 || d == 0 {
            BenchStage::Aborted(BenchError::NoElapsedTime)
        } else {
            BenchStage::Reported(
                BenchResult {
                    elapsed_nanos: d,
                    tps: rate_of(iteration, w as nat) as u128,
                    qps: rate_of(iteration, d as nat) as u128,
                },
            )
        },
        (BenchStage::Reading(_), BenchEvent::PhaseEnded(Err(e))) => BenchStage::Aborted(e),
        _ => stage,
    }
}

/// The course of one benchmark run.
pub struct Bench {
    iteration: u32,
    stage: BenchStage,
}

impl Bench {
    #[verifier::type_invariant]
    spec fn inv(&self) -> bool {
        &&& self.iteration > 0
        &&& self.stage matches BenchStage::Reported(r) ==> r.tps > 0 && r.qps > 0
    }

    pub closed spec fn iteration_spec(&self) -> nat {
        self.iteration as nat
    }

    pub closed spec fn stage_spec(&self) -> BenchStage {
        self.stage
    }

    /// A benchmark of `opt`, about to prepare.
    pub fn new(opt: &BenchOption) -> (r: Bench)
        ensures
            r.iteration_spec() == opt@.iteration,
            r.iteration_spec() > 0,
            r.stage_spec() == BenchStage::Preparing,
    {
        Bench { iteration: opt.iteration(), stage: BenchStage::Preparing }
    }

    /// What to do next.
    pub fn action(&self) -> (r: BenchAction)
        ensures
            r == bench_action(self.stage_spec()),
    {
        match self.stage {
            BenchStage::Preparing => BenchAction::Prepare,
            BenchStage::Writing => BenchAction::RunWritePhase,
            BenchStage::Reading(_) => BenchAction::RunReadPhase,
            BenchStage::Reported(r) => BenchAction::Report(r),
            BenchStage::Aborted(e) => BenchAction::Abort(e),
        }
    }

    /// Takes in the outcome of the step last asked for.
    pub fn handle(&mut self, event: BenchEvent)
        ensures
            final(self).iteration_spec() == old(self).iteration_spec(),
            final(self).stage_spec() == bench_after(
                old(self).iteration_spec(),
                old(self).stage_spec(),
                event,
            ),
            final(self).stage_spec() matches BenchStage::Reported(r) ==> r.tps > 0 && r.qps > 0,
    {
        proof {
            use_type_invariant(&*self);
        }
        let next = match (self.stage, event) {
            (BenchStage::Preparing, BenchEvent::Prepared(Ok(_))) => BenchStage::Writing,
            (BenchStage::Preparing, BenchEvent::Prepared(Err(e))) => BenchStage::Aborted(
                BenchError::Prepare(e),
            ),
            (BenchStage::Writing, BenchEvent::PhaseEnded(Ok(w))) => BenchStage::Reading(w),
            (BenchStage::Writing, BenchEvent::PhaseEnded(Err(e))) => BenchStage::Aborted(e),
            (BenchStage::Reading(w), BenchEvent::PhaseEnded(Ok(d))) => {
                match (throughput(self.iteration, w), throughput(self.iteration, d)) {
                    (Some(tps), Some(qps)) => BenchStage::Reported(
                        BenchResult { elapsed_nanos: d, tps, qps },
                    ),
                    _ => BenchStage::Aborted(BenchError::NoElapsedTime),
                }
            },
            (BenchStage::Reading(_), BenchEvent::PhaseEnded(Err(e))) => BenchStage::Aborted(e),
            (stage, _) => stage,
        };
        self.stage = next;
    }
}

/// Once a phase fails, the benchmark is over: whatever events follow, it asks
/// for no further phase and reports the failure.
pub proof fn lemma_failure_is_final(iteration: nat, e: BenchError, events: Seq<BenchEvent>)
    ensures
        bench_run(iteration, BenchStage::Aborted(e), events) == BenchStage::Aborted(e),
    decreases events.len(),
{
    if events.len() > 0 {
        lemma_failure_is_final(iteration, e, events.drop_first());
    }
}

/// The stage reached from `stage` after the given events.
pub open spec fn bench_run(iteration: nat, stage: BenchStage, events: Seq<BenchEvent>) -> BenchStage
    decreases events.len(),
{
    if events.len() == 0 {
        stage
    } else {
        bench_run(iteration, bench_after(iteration, stage, events[0]), events.drop_first())
    }
}

/// A rate in units of 10^-12, shown in units with two decimals, rounded half
/// up.
pub open spec fn fixed2(rate: nat) -> Seq<char> {
    let centi = (rate + 5_000_000_000) / 10_000_000_000;
    decimal(centi / 100) + seq!['.'] + decimal((centi % 100) / 10) + decimal(centi % 10)
}

/// The line that reports a result: `TPS: <rate>, QPS: <rate>`, each rate in
/// operations per second with two decimals.
pub fn print_bench_result(b: &BenchResult) -> (r: String)
    ensures
        r@ == "TPS: "@ + fixed2(b.tps as nat) + ", QPS: "@ + fixed2(b.qps as nat),
{
    let tps = fixed_text(b.tps);
    let qps = fixed_text(b.qps);
    String::from_str("TPS: ").concat(tps.as_str()).concat(", QPS: ").concat(qps.as_str())
}

fn fixed_text(rate: u128) -> (r: String)
    ensures
        r@ == fixed2(rate as nat),
{
    let centi = rate / 10_000_000_000 + if rate % 10_000_000_000 >= 5_000_000_000 {
        1u128
    } else {
        0u128
    };
    proof {
        assert(centi == (rate + 5_000_000_000) / 10_000_000_000);
        reveal_strlit(".");
    }
    let whole = decimal_text(centi / 100);
    let tens = decimal_text((centi % 100) / 10);
    let ones = decimal_text(centi % 10);
    whole.concat(".").concat(tens.as_str()).concat(ones.as_str())
}

} // verus!
