//! One step of each increment strategy, as the worker loop performs it.
//!
//! Each function computes what a worker's next local observation is from
//! plain values: the value an atomic operation returned, or the value a
//! mutex guard exposed. The surrounding program performs the shared-memory
//! operation itself and hands its result here; the operational model in
//! `run_model` drives whole runs through these same functions.

use vstd::prelude::*;

verus! {

/// The worker loop's termination test, identical across strategies: keep
/// running exactly while the locally observed value is below the target.
pub fn keep_running(current: usize, target: usize) -> (r: bool)
    ensures
        r == (current < target),
{
    current < target
}

/// The observation a fetch-add step yields: the atomic add returns the
/// previous value, and the worker adopts its successor.
pub fn fetch_add_result(previous: usize) -> (r: usize)
    requires
        previous < usize::MAX,
    ensures
        r == previous + 1,
{
    previous + 1
}

/// The value a compare-and-swap attempt proposes for the current estimate.
pub fn cas_proposal(current: usize) -> (r: usize)
    requires
        current < usize::MAX,
    ensures
        r == current + 1,
{
    current + 1
}

/// The observation a compare-and-swap attempt yields. `attempted` is the
/// worker's current estimate, `witness` the value the failed or successful
/// operation reported as actually present. On success the worker adopts
/// its proposal; on failure it adopts the witness without re-reading
/// shared memory.
pub fn cas_observe(attempted: usize, witness: usize) -> (r: usize)
    requires
        witness == attempted ==> attempted < usize::MAX,
    ensures
        witness == attempted ==> r == attempted + 1,
        witness != attempted ==> r == witness,
{
    if witness == attempted {
        attempted + 1
    } else {
        witness
    }
}

/// The mutex strategy's step: with the lock held, the guarded value is
/// advanced by one and the new value is the worker's observation.
pub fn mutex_increment(locked: usize) -> (r: usize)
    requires
        locked < usize::MAX,
    ensures
        r == locked + 1,
{
    locked + 1
}

} // verus!
