//! Operational model of one run: every worker's loop, driven step by step
//! under an arbitrary interleaving.
//!
//! `simulate_run` executes the very step functions the real workers use,
//! against one shared counter, in whatever order a schedule dictates. Its
//! contract determines the outcome completely — the result equals the
//! fold of `spec_step` over the schedule — and carries the run's laws:
//! the final counter lands between the target and the target plus one
//! less than the thread count; each worker's observations never decrease;
//! the successful new values are exactly 1, 2, 3, ... with no duplicate
//! and no gap, whichever strategy ran; and a compare-and-swap run never
//! writes past the target at all.

use crate::config::Strategy;
use crate::step::cas_observe;
use crate::step::fetch_add_result;
use crate::step::keep_running;
use crate::step::mutex_increment;
use vstd::prelude::*;
use vstd::set_lib::lemma_int_range;
use vstd::set_lib::lemma_len_subset;
use vstd::set_lib::set_int_range;

verus! {

/// One recorded step of a run: which worker acted, the new local value it
/// observed, and whether the shared counter advanced on this step (a
/// failed compare-and-swap observes a witness without advancing).
#[derive(Clone, Copy, Debug, PartialEq, Eq, Structural)]
pub struct Event {
    pub worker: usize,
    pub observed: usize,
    pub success: bool,
}

/// What a simulated run produced: the final shared counter, each worker's
/// final local observation, the full event log, and whether every worker
/// reached its termination condition under the given schedule.
pub struct RunOutcome {
    pub counter: usize,
    pub locals: Vec<usize>,
    pub log: Vec<Event>,
    pub complete: bool,
}

/// The new-value observations of worker `w`, in the order it made them.
pub open spec fn observations_of(log: Seq<Event>, w: int) -> Seq<usize>
    decreases log.len(),
{
    if log.len() == 0 {
        Seq::empty()
    } else {
        let rest = observations_of(log.drop_last(), w);
        if log.last().worker == w {
            rest.push(log.last().observed)
        } else {
            rest
        }
    }
}

/// The successful new values of the whole run, in the order the shared
/// counter took them.
pub open spec fn success_values(log: Seq<Event>) -> Seq<usize>
    decreases log.len(),
{
    if log.len() == 0 {
        Seq::empty()
    } else {
        let rest = success_values(log.drop_last());
        if log.last().success {
            rest.push(log.last().observed)
        } else {
            rest
        }
    }
}

/// No later entry of `s` is smaller than an earlier one.
pub open spec fn non_decreasing(s: Seq<usize>) -> bool {
    forall|i: int, j: int| 0 <= i <= j < s.len() ==> s[i] <= s[j]
}

/// `s` is exactly the sequence 1, 2, 3, ..., `s.len()`.
pub open spec fn consecutive_from_one(s: Seq<usize>) -> bool {
    forall|i: int| 0 <= i < s.len() ==> s[i] == i + 1
}

/// Law of the mutex strategy: since every step of a mutex run is a
/// successful increment, the new values assigned across all workers
/// combined — here any sequence of successive counter values — form the
/// strictly increasing sequence 1, 2, 3, ..., v with no duplicate and no
/// gap: mutual exclusion gives the increments a total order.
pub proof fn lemma_successes_strictly_increasing(s: Seq<usize>)
    requires
        consecutive_from_one(s),
    ensures
        forall|i: int, j: int| 0 <= i < j < s.len() ==> s[i] < s[j],
        forall|i: int| 0 < i < s.len() ==> #[trigger] s[i] == s[i - 1] + 1,
{
}

/// Law of the atomic strategies: the successful new values across all
/// workers combined are exactly {1, ..., v}, each claimed by exactly one
/// successful step, whatever ordering strength the run used — every
/// successful atomic step claims a unique successor value.
pub proof fn lemma_successes_distinct(s: Seq<usize>)
    requires
        consecutive_from_one(s),
    ensures
        s.no_duplicates(),
        forall|v: usize| #[trigger] s.contains(v) <==> 1 <= v <= s.len(),
        forall|v: usize|
            #[trigger] s.to_multiset().count(v) == if 1 <= v <= s.len() {
                1nat
            } else {
                0nat
            },
{
    broadcast use vstd::seq_lib::group_to_multiset_ensures;

    assert forall|v: usize| #[trigger] s.contains(v) <==> 1 <= v <= s.len() by {
        if 1 <= v <= s.len() {
            assert(s[v - 1] == v);
        }
    }
    s.lemma_multiset_has_no_duplicates();
}

/// Law: overshoot comes only from additional workers, so a finished run
/// with a single worker lands exactly on the target.
pub proof fn lemma_single_worker_exact(counter: usize, threads: usize, target: usize)
    requires
        threads == 1,
        target <= counter,
        counter <= target + (threads - 1),
    ensures
        counter == target,
{
}

/// Whether every worker's local observation has reached the target: the
/// run's termination condition, detected by each worker on its own value.
pub open spec fn all_done(locals: Seq<usize>, target: usize) -> bool {
    forall|y: int| 0 <= y < locals.len() ==> locals[y] >= target
}

/// The whole shared state of a run between two steps: the shared counter,
/// each worker's local observation, and the event log so far.
#[verifier::ext_equal]
pub struct RunState {
    pub counter: usize,
    pub locals: Seq<usize>,
    pub log: Seq<Event>,
}

/// What one scheduled step of worker `w` does to the run state: nothing
/// once the worker's termination condition holds, and otherwise one
/// iteration of its strategy's loop — an increment for fetch-add and
/// mutex; for compare-and-swap an increment when the worker's estimate
/// still matches the counter, and adoption of the witness when it does
/// not.
pub open spec fn spec_step(s: RunState, w: int, target: usize, strategy: Strategy) -> RunState {
    if s.locals[w] >= target {
        s
    } else {
        match strategy {
            Strategy::FetchAdd | Strategy::MutexIncrement => {
                let next = (s.counter + 1) as usize;
                RunState {
                    counter: next,
                    locals: s.locals.update(w, next),
                    log: s.log.push(Event { worker: w as usize, observed: next, success: true }),
                }
            },
            Strategy::CasRetry => {
                if s.counter == s.locals[w] {
                    let next = (s.counter + 1) as usize;
                    RunState {
                        counter: next,
                        locals: s.locals.update(w, next),
                        log: s.log.push(
                            Event { worker: w as usize, observed: next, success: true },
                        ),
                    }
                } else {
                    RunState {
                        counter: s.counter,
                        locals: s.locals.update(w, s.counter),
                        log: s.log.push(
                            Event { worker: w as usize, observed: s.counter, success: false },
                        ),
                    }
                }
            },
        }
    }
}

/// The run state after the first `n` entries of `schedule` have acted, in
/// order, starting from a counter at zero and every worker's initial read
/// of it.
pub open spec fn spec_run(
    threads: usize,
    target: usize,
    strategy: Strategy,
    schedule: Seq<usize>,
    n: int,
) -> RunState
    decreases n,
{
    if n <= 0 {
        RunState {
            counter: 0,
            locals: Seq::new(threads as nat, |i: int| 0usize),
            log: Seq::empty(),
        }
    } else {
        spec_step(
            spec_run(threads, target, strategy, schedule, n - 1),
            schedule[n - 1] as int,
            target,
            strategy,
        )
    }
}

/// With one fetch-add worker, the counter after `n` scheduled steps is
/// `n` capped at the target, and the worker's local observation is the
/// counter itself: every step the termination condition admits advances
/// the counter by exactly one.
pub proof fn lemma_single_worker_run(target: usize, schedule: Seq<usize>, n: int)
    requires
        1 <= target,
        forall|k: int| 0 <= k < schedule.len() ==> schedule[k] == 0,
        0 <= n <= schedule.len(),
    ensures
        ({
            let s = spec_run(1, target, Strategy::FetchAdd, schedule, n);
            &&& s.locals.len() == 1
            &&& s.locals[0] == s.counter
            &&& s.counter as int == if n < target { n } else { target as int }
        }),
    decreases n,
{
    if n > 0 {
        lemma_single_worker_run(target, schedule, n - 1);
    }
}

/// Law: with a single worker, a schedule of at least `target` steps
/// finishes the run, and the counter lands exactly on the target — no
/// overshoot is possible with exactly one thread.
pub proof fn lemma_single_worker_completes(target: usize, schedule: Seq<usize>)
    requires
        1 <= target,
        target <= schedule.len(),
        forall|k: int| 0 <= k < schedule.len() ==> schedule[k] == 0,
    ensures
        ({
            let s = spec_run(1, target, Strategy::FetchAdd, schedule, schedule.len() as int);
            &&& s.counter == target
            &&& all_done(s.locals, target)
        }),
{
    lemma_single_worker_run(target, schedule, schedule.len() as int);
}

/// The workers whose local observation has reached the target.
pub open spec fn done_set(locals: Seq<usize>, target: usize) -> Set<int> {
    Set::new(|w: int| 0 <= w < locals.len() && locals[w] >= target)
}

/// A worker's recorded observations end at its current local value, and a
/// worker that has recorded none still holds its initial read of zero.
pub open spec fn observations_current(log: Seq<Event>, locals: Seq<usize>, w: int) -> bool {
    &&& (observations_of(log, w).len() == 0 ==> locals[w] == 0)
    &&& (observations_of(log, w).len() > 0 ==> observations_of(log, w).last() == locals[w])
}

/// Everything that holds of the shared state between any two steps of a
/// run: no local observation is ahead of the counter; the counter stays
/// below the target until a worker is done, and each worker past the
/// target accounts for at most one step of overshoot; the counter counts
/// the successful steps, whose values are exactly 1, 2, 3, ...; each
/// worker's observations are non-decreasing and end at its local value;
/// and only the compare-and-swap strategy ever records a failed step.
pub open spec fn run_invariant(
    counter: usize,
    locals: Seq<usize>,
    log: Seq<Event>,
    target: usize,
    strategy: Strategy,
) -> bool {
    &&& counter <= target - 1 + done_set(locals, target).len()
    &&& forall|x: int| 0 <= x < locals.len() ==> locals[x] <= counter
    &&& counter == success_values(log).len()
    &&& consecutive_from_one(success_values(log))
    &&& forall|x: int| 0 <= x < locals.len() ==> non_decreasing(observations_of(log, x))
    &&& forall|x: int| 0 <= x < locals.len() ==> observations_current(log, locals, x)
    &&& strategy != Strategy::CasRetry ==> forall|i: int| 0 <= i < log.len() ==> log[i].success
    &&& strategy == Strategy::CasRetry ==> counter <= target
}

proof fn lemma_observations_push(log: Seq<Event>, e: Event, w: int)
    ensures
        observations_of(log.push(e), w) == if e.worker == w {
            observations_of(log, w).push(e.observed)
        } else {
            observations_of(log, w)
        },
{
    assert(log.push(e).drop_last() =~= log);
    assert(log.push(e).last() == e);
}

proof fn lemma_success_values_push(log: Seq<Event>, e: Event)
    ensures
        success_values(log.push(e)) == if e.success {
            success_values(log).push(e.observed)
        } else {
            success_values(log)
        },
{
    assert(log.push(e).drop_last() =~= log);
    assert(log.push(e).last() == e);
}

proof fn lemma_non_decreasing_push(s: Seq<usize>, v: usize)
    requires
        non_decreasing(s),
        s.len() > 0 ==> s.last() <= v,
    ensures
        non_decreasing(s.push(v)),
{
    let t = s.push(v);
    assert forall|i: int, j: int| 0 <= i <= j < t.len() implies t[i] <= t[j] by {
        if j < s.len() {
        } else if i < s.len() {
            assert(s[i] <= s[s.len() - 1]);
        }
    }
}

/// The done set is a finite set of at most `locals.len()` workers.
proof fn lemma_done_set_bound(locals: Seq<usize>, target: usize)
    ensures
        done_set(locals, target).finite(),
        done_set(locals, target).len() <= locals.len(),
{
    lemma_int_range(0, locals.len() as int);
    assert(done_set(locals, target).subset_of(set_int_range(0, locals.len() as int)));
    lemma_len_subset(done_set(locals, target), set_int_range(0, locals.len() as int));
}

/// How the done set moves when worker `w`, not yet done, observes `v`.
proof fn lemma_done_set_update(locals: Seq<usize>, target: usize, w: int, v: usize)
    requires
        0 <= w < locals.len(),
        locals[w] < target,
    ensures
        v >= target ==> done_set(locals.update(w, v), target) == done_set(locals, target).insert(
            w,
        ),
        v < target ==> done_set(locals.update(w, v), target) == done_set(locals, target),
{
    if v >= target {
        assert(done_set(locals.update(w, v), target) =~= done_set(locals, target).insert(w));
    } else {
        assert(done_set(locals.update(w, v), target) =~= done_set(locals, target));
    }
}

/// Each worker's initial acquire read of the counter, made while it still
/// stands at zero: every local observation starts there.
fn initial_observations(threads: usize) -> (locals: Vec<usize>)
    ensures
        locals@.len() == threads,
        forall|x: int| 0 <= x < threads ==> locals@[x] == 0,
{
    let mut locals: Vec<usize> = Vec::new();
    let mut setup: usize = 0;
    while setup < threads
        invariant
            setup <= threads,
            locals@.len() == setup,
            forall|x: int| 0 <= x < setup ==> locals@[x] == 0,
        decreases threads - setup,
    {
        locals.push(0);
        setup = setup + 1;
    }
    locals
}

/// Whether every worker's local observation has reached the target.
fn all_reached(locals: &Vec<usize>, target: usize) -> (r: bool)
    ensures
        r == all_done(locals@, target),
{
    let mut r = true;
    let mut x: usize = 0;
    while x < locals.len()
        invariant
            x <= locals@.len(),
            r == (forall|y: int| 0 <= y < x ==> locals@[y] >= target),
        decreases locals@.len() - x,
    {
        if locals[x] < target {
            r = false;
        }
        x = x + 1;
    }
    r
}

/// One scheduled step of worker `w`: one iteration of its loop if its
/// termination condition has not yet been met, and nothing otherwise.
fn run_step(
    counter: &mut usize,
    locals: &mut Vec<usize>,
    log: &mut Vec<Event>,
    w: usize,
    target: usize,
    strategy: Strategy,
)
    requires
        1 <= target,
        target + old(locals)@.len() <= usize::MAX,
        w < old(locals)@.len(),
        run_invariant(*old(counter), old(locals)@, old(log)@, target, strategy),
    ensures
        final(locals)@.len() == old(locals)@.len(),
        run_invariant(*final(counter), final(locals)@, final(log)@, target, strategy),
        ({
            let stepped = spec_step(
                (RunState { counter: *old(counter), locals: old(locals)@, log: old(log)@ }),
                w as int,
                target,
                strategy,
            );
            &&& *final(counter) == stepped.counter
            &&& final(locals)@ == stepped.locals
            &&& final(log)@ == stepped.log
        }),
{
    let local = locals[w];
    if keep_running(local, target) {
        proof {
            lemma_done_set_bound(locals@, target);
        }
        let ghost old_locals = locals@;
        let ghost old_log = log@;
        let ghost old_counter = *counter;
        let event: Event;
        match strategy {
            Strategy::FetchAdd => {
                let next = fetch_add_result(*counter);
                *counter = next;
                locals.set(w, next);
                event = Event { worker: w, observed: next, success: true };
            },
            Strategy::MutexIncrement => {
                let next = mutex_increment(*counter);
                *counter = next;
                locals.set(w, next);
                event = Event { worker: w, observed: next, success: true };
            },
            Strategy::CasRetry => {
                let witness = *counter;
                let next = cas_observe(local, witness);
                let succeeded = witness == local;
                if succeeded {
                    *counter = next;
                }
                locals.set(w, next);
                event = Event { worker: w, observed: next, success: succeeded };
            },
        }
        log.push(event);
        proof {
            assert(local == old_locals[w as int]);
            assert(old_locals[w as int] <= old_counter);
            assert(event.observed >= local);
            assert(locals@ =~= old_locals.update(w as int, event.observed));
            lemma_success_values_push(old_log, event);
            lemma_done_set_update(old_locals, target, w as int, event.observed);
            assert forall|x: int| 0 <= x < locals@.len() implies non_decreasing(
                observations_of(log@, x),
            ) by {
                assert(non_decreasing(observations_of(old_log, x)));
                assert(observations_current(old_log, old_locals, x));
                lemma_observations_push(old_log, event, x);
                if x == w as int {
                    lemma_non_decreasing_push(observations_of(old_log, x), event.observed);
                }
            }
            assert forall|x: int| 0 <= x < locals@.len() implies observations_current(
                log@,
                locals@,
                x,
            ) by {
                assert(observations_current(old_log, old_locals, x));
                lemma_observations_push(old_log, event, x);
                if x != w as int {
                    assert(locals@[x] == old_locals[x]);
                }
            }
            let stepped = spec_step(
                (RunState { counter: old_counter, locals: old_locals, log: old_log }),
                w as int,
                target,
                strategy,
            );
            assert(*counter == stepped.counter);
            assert(locals@ =~= stepped.locals);
            assert(log@ =~= stepped.log);
        }
    }
}

/// Run the increment loops of `threads` workers against one shared counter
/// starting at zero, under `strategy`, interleaved as `schedule` dictates:
/// at each step the scheduled worker performs one iteration of its loop if
/// its termination condition has not yet been met. Workers observe the
/// counter only through their own steps, so a finished run may overshoot
/// the target by up to one increment per additional worker — and by none
/// at all with a single worker.
pub fn simulate_run(threads: usize, target: usize, strategy: Strategy, schedule: &Vec<usize>) -> (out:
    RunOutcome)
    requires
        1 <= threads,
        1 <= target,
        target + threads <= usize::MAX,
        forall|k: int| 0 <= k < schedule@.len() ==> schedule@[k] < threads,
    ensures
        out.locals@.len() == threads,
        out.counter <= target + (threads - 1),
        out.complete ==> target <= out.counter,
        out.complete == all_done(out.locals@, target),
        forall|w: int| 0 <= w < threads ==> out.locals@[w] <= out.counter,
        out.counter == success_values(out.log@).len(),
        consecutive_from_one(success_values(out.log@)),
        forall|w: int| 0 <= w < threads ==> non_decreasing(observations_of(out.log@, w)),
        forall|w: int| 0 <= w < threads ==> observations_current(out.log@, out.locals@, w),
        strategy != Strategy::CasRetry ==> forall|i: int|
            0 <= i < out.log@.len() ==> out.log@[i].success,
        strategy == Strategy::CasRetry ==> out.counter <= target,
        ({
            let end = spec_run(threads, target, strategy, schedule@, schedule@.len() as int);
            &&& out.counter == end.counter
            &&& out.locals@ == end.locals
            &&& out.log@ == end.log
        }),
{
    let mut counter: usize = 0;
    let mut locals = initial_observations(threads);
    let mut log: Vec<Event> = Vec::new();
    proof {
        assert(locals@ =~= Seq::new(threads as nat, |i: int| 0usize));
        assert((RunState { counter, locals: locals@, log: log@ }) =~= spec_run(
            threads,
            target,
            strategy,
            schedule@,
            0,
        ));
    }
    let mut k: usize = 0;
    while k < schedule.len()
        invariant
            1 <= threads,
            1 <= target,
            target + threads <= usize::MAX,
            forall|i: int| 0 <= i < schedule@.len() ==> schedule@[i] < threads,
            k <= schedule@.len(),
            locals@.len() == threads,
            run_invariant(counter, locals@, log@, target, strategy),
            (RunState { counter, locals: locals@, log: log@ }) == spec_run(
                threads,
                target,
                strategy,
                schedule@,
                k as int,
            ),
        decreases schedule@.len() - k,
    {
        let w = schedule[k];
        let ghost pre_state = spec_run(threads, target, strategy, schedule@, k as int);
        run_step(&mut counter, &mut locals, &mut log, w, target, strategy);
        proof {
            assert(spec_run(threads, target, strategy, schedule@, k as int + 1) == spec_step(
                pre_state,
                w as int,
                target,
                strategy,
            ));
            assert((RunState { counter, locals: locals@, log: log@ }) =~= spec_run(
                threads,
                target,
                strategy,
                schedule@,
                k as int + 1,
            ));
        }
        k = k + 1;
    }
    proof {
        lemma_done_set_bound(locals@, target);
    }
    let complete = all_reached(&locals, target);
    proof {
        if complete {
            assert(locals@[0] >= target);
            assert(locals@[0] <= counter);
        }
    }
    RunOutcome { counter, locals, log, complete }
}

} // verus!
