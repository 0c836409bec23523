//! Model of the two rendezvous points that bracket a run's timed section.
//!
//! A rendezvous is created for a fixed number of parties — the workers plus
//! the orchestrator — and releases no one until every party has arrived.
//! `Rendezvous` is an arrival counter with that behaviour as its contract;
//! the law below states the consequence the harness depends on: whoever is
//! released knows that every other party, the orchestrator included, has
//! already arrived.

use vstd::prelude::*;
use vstd::set_lib::lemma_int_range;
use vstd::set_lib::lemma_len_subset;
use vstd::set_lib::lemma_subset_equality;
use vstd::set_lib::set_int_range;

verus! {

/// An arrival counter for a rendezvous of a fixed number of parties.
pub struct Rendezvous {
    parties: usize,
    arrived: usize,
}

impl Rendezvous {
    /// How many parties must arrive before the rendezvous opens.
    pub closed spec fn parties(&self) -> int {
        self.parties as int
    }

    /// How many parties have arrived so far.
    pub closed spec fn arrived(&self) -> int {
        self.arrived as int
    }

    /// No more parties have arrived than were configured.
    pub closed spec fn wf(&self) -> bool {
        self.arrived <= self.parties
    }

    /// A fresh rendezvous for `parties` parties, none arrived yet.
    pub fn new(parties: usize) -> (r: Rendezvous)
        ensures
            r.wf(),
            r.parties() == parties,
            r.arrived() == 0,
    {
        Rendezvous { parties, arrived: 0 }
    }

    /// Record one party's arrival; the result says whether the rendezvous
    /// is now open, which happens exactly when the last party arrives.
    pub fn arrive(&mut self) -> (open: bool)
        requires
            old(self).wf(),
            old(self).arrived() < old(self).parties(),
        ensures
            final(self).wf(),
            final(self).parties() == old(self).parties(),
            final(self).arrived() == old(self).arrived() + 1,
            open == (final(self).arrived() == final(self).parties()),
    {
        self.arrived = self.arrived + 1;
        self.arrived == self.parties
    }

    /// Whether every party has arrived, so that all of them are released.
    pub fn is_open(&self) -> (open: bool)
        ensures
            open == (self.arrived() == self.parties()),
    {
        self.arrived == self.parties
    }
}

/// Whether a rendezvous of `parties` parties, whose arrivals so far are the
/// set of party identifiers `arrived` drawn from `0 .. parties`, releases
/// its parties.
pub open spec fn releases(arrived: Set<int>, parties: nat) -> bool {
    &&& arrived.finite()
    &&& arrived.subset_of(set_int_range(0, parties as int))
    &&& arrived.len() == parties
}

/// Law: a rendezvous releases no party until every party has arrived. In a
/// run, the workers are parties `0 .. threads` and the orchestrator is party
/// `threads`, so no worker leaves the first rendezvous — and begins its
/// timed loop — before the orchestrator has arrived there and started its
/// clock; and the orchestrator leaves the second rendezvous — and stops its
/// clock — only after every worker has arrived at it.
pub proof fn lemma_release_requires_all(arrived: Set<int>, parties: nat, id: int)
    requires
        releases(arrived, parties),
        0 <= id < parties,
    ensures
        arrived.contains(id),
{
    lemma_int_range(0, parties as int);
    lemma_len_subset(arrived, set_int_range(0, parties as int));
    lemma_subset_equality(arrived, set_int_range(0, parties as int));
}

} // verus!
