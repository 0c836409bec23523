use hardware_timing::config::Strategy;
use hardware_timing::run_model::simulate_run;
use hardware_timing::run_model::RunOutcome;

fn round_robin(threads: usize, steps: usize) -> Vec<usize> {
    (0..steps).map(|k| k % threads).collect()
}

fn observed_by(out: &RunOutcome, worker: usize) -> Vec<usize> {
    out.log
        .iter()
        .filter(|e| e.worker == worker)
        .map(|e| e.observed)
        .collect()
}

#[test]
fn single_thread_run_is_exact() {
    let schedule = round_robin(1, 1200);
    let out = simulate_run(1, 1000, Strategy::FetchAdd, &schedule);
    assert!(out.complete);
    assert_eq!(out.counter, 1000);
    assert_eq!(out.locals, vec![1000]);
}

#[test]
fn eight_thread_fetch_add_overshoots_by_at_most_seven() {
    let target: usize = 50;
    let schedule = round_robin(8, 800);
    let out = simulate_run(8, target, Strategy::FetchAdd, &schedule);
    assert!(out.complete);
    assert!(out.counter >= target);
    assert!(out.counter <= target + 7);
}

#[test]
fn eight_thread_cas_overshoots_by_at_most_seven() {
    let target: usize = 50;
    let schedule = round_robin(8, 2000);
    let out = simulate_run(8, target, Strategy::CasRetry, &schedule);
    assert!(out.complete);
    assert!(out.counter >= target);
    assert!(out.counter <= target + 7);
    // A compare-and-swap is only attempted with an estimate below the
    // target, so a CAS run in fact never writes past it.
    assert_eq!(out.counter, target);
}

#[test]
fn overshoot_happens_when_a_lagging_worker_reenters() {
    // Worker 0 advances the counter to 2, worker 1 finishes it, and worker
    // 0, still holding its stale observation of 2, adds one increment past
    // the target before it sees a value at the target.
    let target: usize = 3;
    let schedule = vec![0, 0, 1, 0];
    let out = simulate_run(2, target, Strategy::FetchAdd, &schedule);
    assert!(out.complete);
    assert_eq!(out.counter, 4);
    assert_eq!(out.locals, vec![4, 3]);
}

#[test]
fn cas_failure_adopts_witness_and_run_stays_exact() {
    // Alternating two workers under compare-and-swap: the second worker's
    // estimate is always stale, so it only ever fails and adopts the
    // witness, while the first does every increment; the counter never
    // overshoots.
    let target: usize = 10;
    let mut schedule = Vec::new();
    for _ in 0..target {
        schedule.push(0);
        schedule.push(1);
    }
    schedule.push(1);
    let out = simulate_run(2, target, Strategy::CasRetry, &schedule);
    assert!(out.complete);
    assert_eq!(out.counter, target);
    assert!(out.log.iter().any(|e| !e.success));
}

#[test]
fn mutex_run_claims_every_value_in_order() {
    let target: usize = 30;
    let schedule = round_robin(3, 300);
    let out = simulate_run(3, target, Strategy::MutexIncrement, &schedule);
    assert!(out.complete);
    // Every step of a mutex run succeeds, and the new values across all
    // workers combined are exactly 1, 2, 3, ..., with no gap or duplicate.
    for (i, e) in out.log.iter().enumerate() {
        assert!(e.success);
        assert_eq!(e.observed, i + 1);
    }
    assert_eq!(out.log.len(), out.counter);
}

#[test]
fn successful_values_are_distinct_and_complete() {
    let target: usize = 25;
    let schedule = round_robin(4, 500);
    let out = simulate_run(4, target, Strategy::CasRetry, &schedule);
    assert!(out.complete);
    let mut successes: Vec<usize> = out
        .log
        .iter()
        .filter(|e| e.success)
        .map(|e| e.observed)
        .collect();
    assert_eq!(successes.len(), out.counter);
    successes.sort();
    for (i, v) in successes.iter().enumerate() {
        assert_eq!(*v, i + 1);
    }
}

#[test]
fn local_observations_never_decrease() {
    let target: usize = 40;
    let schedule = round_robin(5, 1000);
    let out = simulate_run(5, target, Strategy::CasRetry, &schedule);
    for w in 0..5 {
        let seen = observed_by(&out, w);
        for pair in seen.windows(2) {
            assert!(pair[0] <= pair[1]);
        }
    }
}

#[test]
fn incomplete_schedule_reports_incomplete() {
    let schedule = round_robin(2, 3);
    let out = simulate_run(2, 100, Strategy::FetchAdd, &schedule);
    assert!(!out.complete);
    assert!(out.counter < 100);
}
