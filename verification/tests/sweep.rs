use hardware_timing::config::sweep_orderings;
use hardware_timing::config::sweep_plans;
use hardware_timing::config::sweep_thread_counts;
use hardware_timing::config::MemOrdering;
use hardware_timing::config::Strategy;
use hardware_timing::config::ThreadPlan;
use hardware_timing::config::TARGET;

#[test]
fn sweep_sets() {
    assert_eq!(sweep_thread_counts(), vec![1, 2, 4, 8]);
    assert_eq!(
        sweep_orderings(),
        vec![
            MemOrdering::SeqCst,
            MemOrdering::AcqRel,
            MemOrdering::Release,
            MemOrdering::Relaxed,
        ]
    );
    assert_eq!(TARGET, 50000000);
}

#[test]
fn cross_product_thread_counts_outermost() {
    let counts = sweep_thread_counts();
    let orderings = sweep_orderings();
    let plans = sweep_plans(&counts, &orderings, Strategy::FetchAdd);
    assert_eq!(plans.len(), 16);
    for (i, &threads) in counts.iter().enumerate() {
        for (j, &ordering) in orderings.iter().enumerate() {
            assert_eq!(
                plans[i * orderings.len() + j],
                ThreadPlan { threads, ordering, strategy: Strategy::FetchAdd }
            );
        }
    }
    assert_eq!(
        plans[0],
        ThreadPlan { threads: 1, ordering: MemOrdering::SeqCst, strategy: Strategy::FetchAdd }
    );
    assert_eq!(
        plans[15],
        ThreadPlan { threads: 8, ordering: MemOrdering::Relaxed, strategy: Strategy::FetchAdd }
    );
}

#[test]
fn mutex_sweep_has_one_plan_per_thread_count() {
    let counts = sweep_thread_counts();
    let orderings = vec![MemOrdering::SeqCst];
    let plans = sweep_plans(&counts, &orderings, Strategy::MutexIncrement);
    assert_eq!(plans.len(), 4);
    for (i, &threads) in counts.iter().enumerate() {
        assert_eq!(plans[i].threads, threads);
        assert_eq!(plans[i].strategy, Strategy::MutexIncrement);
    }
}

#[test]
fn empty_orderings_give_no_plans() {
    let counts = sweep_thread_counts();
    let orderings: Vec<MemOrdering> = Vec::new();
    let plans = sweep_plans(&counts, &orderings, Strategy::CasRetry);
    assert_eq!(plans.len(), 0);
}
