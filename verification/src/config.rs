//! Sweep configuration: ordering strengths, increment strategies, and the
//! cross product of thread counts and orderings that one sweep runs.

use vstd::prelude::*;

verus! {

/// How many increments one run targets.
pub const TARGET: usize = 50000000;

/// The memory-ordering strength attached to every shared-counter operation
/// of a run. `Acquire` is used only for each worker's initial read of the
/// counter; the sweep itself ranges over the other four.
#[derive(Clone, Copy, Debug, PartialEq, Eq, Structural)]
pub enum MemOrdering {
    Relaxed,
    Release,
    Acquire,
    AcqRel,
    SeqCst,
}

/// The algorithm a worker repeats against the shared counter.
#[derive(Clone, Copy, Debug, PartialEq, Eq, Structural)]
pub enum Strategy {
    FetchAdd,
    CasRetry,
    MutexIncrement,
}

/// One sweep configuration: how many workers, under which ordering, running
/// which strategy. Immutable for the duration of the run it describes.
#[derive(Clone, Copy, Debug, PartialEq, Eq, Structural)]
pub struct ThreadPlan {
    pub threads: usize,
    pub ordering: MemOrdering,
    pub strategy: Strategy,
}

/// The thread counts one sweep ranges over.
pub fn sweep_thread_counts() -> (counts: Vec<usize>)
    ensures
        counts@ =~= seq![1usize, 2usize, 4usize, 8usize],
{
    let mut counts: Vec<usize> = Vec::new();
    counts.push(1);
    counts.push(2);
    counts.push(4);
    counts.push(8);
    counts
}

/// The ordering strengths one sweep ranges over, strongest first.
pub fn sweep_orderings() -> (orderings: Vec<MemOrdering>)
    ensures
        orderings@ =~= seq![
            MemOrdering::SeqCst,
            MemOrdering::AcqRel,
            MemOrdering::Release,
            MemOrdering::Relaxed,
        ],
{
    let mut orderings: Vec<MemOrdering> = Vec::new();
    orderings.push(MemOrdering::SeqCst);
    orderings.push(MemOrdering::AcqRel);
    orderings.push(MemOrdering::Release);
    orderings.push(MemOrdering::Relaxed);
    orderings
}

/// The full cross product of the given thread counts and orderings for one
/// strategy, thread counts outermost: entry `k` pairs thread count `k / m`
/// with ordering `k % m`, where `m` is the number of orderings.
pub fn sweep_plans(thread_counts: &Vec<usize>, orderings: &Vec<MemOrdering>, strategy: Strategy) -> (plans: Vec<
    ThreadPlan,
>)
    ensures
        plans@.len() == thread_counts@.len() * orderings@.len(),
        forall|k: int|
            0 <= k < plans@.len() ==> #[trigger] plans@[k] == (ThreadPlan {
                threads: thread_counts@[k / orderings@.len() as int],
                ordering: orderings@[k % orderings@.len() as int],
                strategy,
            }),
{
    let m = orderings.len();
    let mut plans: Vec<ThreadPlan> = Vec::new();
    let mut i: usize = 0;
    while i < thread_counts.len()
        invariant
            i <= thread_counts@.len(),
            m == orderings@.len(),
            plans@.len() == i * m,
            forall|k: int|
                0 <= k < plans@.len() ==> #[trigger] plans@[k] == (ThreadPlan {
                    threads: thread_counts@[k / m as int],
                    ordering: orderings@[k % m as int],
                    strategy,
                }),
        decreases thread_counts@.len() - i,
    {
        let mut j: usize = 0;
        while j < m
            invariant
                i < thread_counts@.len(),
                j <= m,
                m == orderings@.len(),
                plans@.len() == i * m + j,
                forall|k: int|
                    0 <= k < plans@.len() ==> #[trigger] plans@[k] == (ThreadPlan {
                        threads: thread_counts@[k / m as int],
                        ordering: orderings@[k % m as int],
                        strategy,
                    }),
            decreases m - j,
        {
            let plan = ThreadPlan { threads: thread_counts[i], ordering: orderings[j], strategy };
            proof {
                vstd::arithmetic::div_mod::lemma_fundamental_div_mod_converse(
                    i * m + j,
                    m as int,
                    i as int,
                    j as int,
                );
            }
            plans.push(plan);
            j = j + 1;
        }
        i = i + 1;
        proof {
            assert((i - 1) * m + m == i * m) by (nonlinear_arith);
        }
    }
    plans
}

} // verus!
