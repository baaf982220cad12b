use zoobench::bench::{print_bench_result, throughput, Bench, BenchAction, BenchEvent, BenchResult};
use zoobench::error::{BenchError, ServiceError};
use zoobench::option::BenchOption;
use zoobench::prepare::{PrepareAction, Preparer};

fn option(prefix: &str, digest: Option<&str>) -> BenchOption {
    BenchOption::new(
        "127.0.0.1:2181".to_string(),
        10,
        100,
        4,
        16,
        false,
        prefix.to_string(),
        digest.map(|d| d.to_string()),
    )
    .unwrap()
}

fn prepare_with(p: &mut Preparer, results: &[Result<(), ServiceError>]) -> Vec<PrepareAction> {
    let mut actions = Vec::new();
    let mut k = 0;
    loop {
        let a = p.action();
        actions.push(a);
        match a {
            PrepareAction::Done | PrepareAction::Abort(_) => return actions,
            _ => {
                p.record(results[k]);
                k += 1;
            }
        }
    }
}

#[test]
fn throughput_of_thousand_in_two_seconds() {
    assert_eq!(throughput(1000, 2_000_000_000), Some(500_000_000_000_000));
    assert_eq!(throughput(1, 3_000_000_000), Some(333_333_333_333));
    assert_eq!(throughput(1000, 0), None);
}

#[test]
fn throughput_of_very_long_phases_stays_positive() {
    assert_eq!(throughput(100, 200_000_000_000_000), Some(500_000_000));
    assert_eq!(throughput(1, u64::MAX), Some(54));
}

#[test]
fn report_line() {
    let r = BenchResult {
        elapsed_nanos: 1,
        tps: 500_000_000_000_000,
        qps: 1_234_567_000_000_000,
    };
    assert_eq!(print_bench_result(&r), "TPS: 500.00, QPS: 1234.57");
    let r = BenchResult { elapsed_nanos: 1, tps: 4_000_000_000, qps: 5_000_000_000 };
    assert_eq!(print_bench_result(&r), "TPS: 0.00, QPS: 0.01");
}

#[test]
fn options_reject_bad_worker_counts() {
    let mk = |iteration: u32, threads: u32| {
        BenchOption::new("h".to_string(), 1, iteration, threads, 8, true, "/p".to_string(), None)
    };
    assert_eq!(mk(10, 0).err(), Some(BenchError::InvalidWorkers));
    assert_eq!(mk(3, 4).err(), Some(BenchError::InvalidWorkers));
    let o = mk(4, 4).unwrap();
    assert_eq!(o.node_value().len(), 8);
    assert_eq!(o.node_path_template(), "/p/test-node");
    assert!(o.worker(3).is_some());
    assert!(o.worker(4).is_none());
}

#[test]
fn clean_run_scenario() {
    let opt = option("/bench-test", None);
    let mut p = Preparer::new(&opt);
    let actions = prepare_with(&mut p, &[Err(ServiceError::NoNode), Ok(())]);
    assert_eq!(
        actions,
        vec![PrepareAction::DeleteTree, PrepareAction::CreateNode(0), PrepareAction::Done]
    );
    assert_eq!(p.prefix(), "/bench-test");
    assert_eq!(p.path(0), Some("/bench-test"));
    assert_eq!(p.path(1), None);

    let mut b = Bench::new(&opt);
    assert_eq!(b.action(), BenchAction::Prepare);
    b.handle(BenchEvent::Prepared(Ok(())));
    assert_eq!(b.action(), BenchAction::RunWritePhase);
    b.handle(BenchEvent::PhaseEnded(Ok(2_000_000_000)));
    assert_eq!(b.action(), BenchAction::RunReadPhase);
    b.handle(BenchEvent::PhaseEnded(Ok(1_000_000_000)));
    match b.action() {
        BenchAction::Report(r) => {
            assert_eq!(
                r,
                BenchResult {
                    elapsed_nanos: 1_000_000_000,
                    tps: 50_000_000_000_000,
                    qps: 100_000_000_000_000
                }
            );
            assert!(r.tps > 0 && r.qps > 0);
        }
        other => panic!("unexpected {:?}", other),
    }
}

#[test]
fn pre_existing_namespace_scenario() {
    let opt = option("/bench-test", Some("user:pw"));
    let mut p = Preparer::new(&opt);
    assert_eq!(p.digest(), Some("user:pw"));
    let actions = prepare_with(&mut p, &[Ok(()), Ok(()), Err(ServiceError::NodeExists)]);
    assert_eq!(
        actions,
        vec![
            PrepareAction::Authenticate,
            PrepareAction::DeleteTree,
            PrepareAction::CreateNode(0),
            PrepareAction::Done
        ]
    );
}

#[test]
fn preparation_twice_gives_same_actions() {
    let opt = option("/a/b", None);
    let mut first = Preparer::new(&opt);
    let mut second = Preparer::new(&opt);
    let a1 = prepare_with(&mut first, &[Err(ServiceError::NoNode), Ok(()), Ok(())]);
    let a2 = prepare_with(&mut second, &[Ok(()), Err(ServiceError::NodeExists), Ok(())]);
    assert_eq!(a1, a2);
    assert_eq!(*a2.last().unwrap(), PrepareAction::Done);
}

#[test]
fn preparation_aborts_on_other_errors() {
    let opt = option("/bench-test", None);
    let mut p = Preparer::new(&opt);
    let actions = prepare_with(&mut p, &[Err(ServiceError::Other(-4))]);
    assert_eq!(*actions.last().unwrap(), PrepareAction::Abort(ServiceError::Other(-4)));
    let mut p = Preparer::new(&opt);
    let actions = prepare_with(&mut p, &[Ok(()), Err(ServiceError::NoNode)]);
    assert_eq!(*actions.last().unwrap(), PrepareAction::Abort(ServiceError::NoNode));
}

#[test]
fn failed_write_phase_skips_reads() {
    let opt = option("/bench-test", None);
    let mut b = Bench::new(&opt);
    b.handle(BenchEvent::Prepared(Ok(())));
    b.handle(BenchEvent::PhaseEnded(Err(BenchError::BenchFailed)));
    assert_eq!(b.action(), BenchAction::Abort(BenchError::BenchFailed));
    b.handle(BenchEvent::PhaseEnded(Ok(10)));
    assert_eq!(b.action(), BenchAction::Abort(BenchError::BenchFailed));
}

#[test]
fn failed_preparation_aborts() {
    let opt = option("/bench-test", None);
    let mut b = Bench::new(&opt);
    b.handle(BenchEvent::Prepared(Err(ServiceError::Other(-4))));
    assert_eq!(b.action(), BenchAction::Abort(BenchError::Prepare(ServiceError::Other(-4))));
}

#[test]
fn zero_elapsed_phase_has_no_rate() {
    let opt = option("/bench-test", None);
    let mut b = Bench::new(&opt);
    b.handle(BenchEvent::Prepared(Ok(())));
    b.handle(BenchEvent::PhaseEnded(Ok(0)));
    b.handle(BenchEvent::PhaseEnded(Ok(5)));
    assert_eq!(b.action(), BenchAction::Abort(BenchError::NoElapsedTime));
}
