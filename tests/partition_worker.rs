use zoobench::bench::phase_outcome;
use zoobench::error::BenchError;
use zoobench::partition::worker_range;
use zoobench::worker::{Step, Worker};

fn run_worker(w: &mut Worker, fail_at: Option<u32>) -> Vec<u32> {
    let mut seen = Vec::new();
    while let Step::Run(i) = w.action() {
        seen.push(i);
        w.record(Some(i) != fail_at);
    }
    seen
}

#[test]
fn ranges_of_even_split() {
    assert_eq!(worker_range(100, 4, 0), (0, 25));
    assert_eq!(worker_range(100, 4, 2), (50, 75));
    assert_eq!(worker_range(100, 4, 3), (75, 100));
}

#[test]
fn remainder_items_are_unassigned() {
    assert_eq!(worker_range(10, 3, 0), (0, 3));
    assert_eq!(worker_range(10, 3, 2), (6, 9));
}

#[test]
fn ranges_cover_without_overlap() {
    let (iteration, threads) = (1000u32, 7u32);
    let mut owners = vec![0u32; iteration as usize];
    for t in 0..threads {
        let (a, b) = worker_range(iteration, threads, t);
        for i in a..b {
            owners[i as usize] += 1;
        }
    }
    let covered = (threads * (iteration / threads)) as usize;
    assert!(owners[..covered].iter().all(|&c| c == 1));
    assert!(owners[covered..].iter().all(|&c| c == 0));
    for t in 0..threads - 1 {
        assert_eq!(worker_range(iteration, threads, t).1, worker_range(iteration, threads, t + 1).0);
    }
}

#[test]
fn worker_runs_range_in_order() {
    let mut w = Worker::new(100, 4, 1);
    let seen = run_worker(&mut w, None);
    assert_eq!(seen, (25..50).collect::<Vec<u32>>());
    assert_eq!(w.action(), Step::Finished);
    assert!(w.is_done());
    assert!(!w.has_failed());
}

#[test]
fn worker_stops_at_first_failure() {
    let mut w = Worker::new(100, 4, 2);
    let seen = run_worker(&mut w, Some(57));
    assert_eq!(seen, (50..58).collect::<Vec<u32>>());
    assert_eq!(w.action(), Step::Failed);
    w.record(true);
    assert_eq!(w.action(), Step::Failed);
    assert!(w.has_failed());
}

#[test]
fn single_failing_write_fails_phase_but_siblings_complete() {
    let mut workers: Vec<Worker> = (0..4).map(|t| Worker::new(100, 4, t)).collect();
    let mut performed = Vec::new();
    for (t, w) in workers.iter_mut().enumerate() {
        let fail_at = if t == 2 { Some(57) } else { None };
        performed.push(run_worker(w, fail_at));
    }
    for t in [0usize, 1, 3] {
        let (a, b) = worker_range(100, 4, t as u32);
        assert_eq!(performed[t], (a..b).collect::<Vec<u32>>());
        assert_eq!(workers[t].action(), Step::Finished);
    }
    assert_eq!(*performed[2].last().unwrap(), 57);
    assert_eq!(phase_outcome(&workers, 5), Err(BenchError::BenchFailed));
}

#[test]
fn clean_phase_reports_elapsed() {
    let mut workers: Vec<Worker> = (0..4).map(|t| Worker::new(100, 4, t)).collect();
    let mut all = Vec::new();
    for w in workers.iter_mut() {
        all.extend(run_worker(w, None));
    }
    all.sort();
    assert_eq!(all, (0..100).collect::<Vec<u32>>());
    assert_eq!(phase_outcome(&workers, 1234), Ok(1234));
}

#[test]
fn phase_with_running_worker_is_not_a_success() {
    let workers = vec![Worker::new(10, 2, 0)];
    assert_eq!(phase_outcome(&workers, 1), Err(BenchError::BenchFailed));
}
