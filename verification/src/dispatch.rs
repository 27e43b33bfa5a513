//! The admission-limited dispatcher's state machine. The surrounding
//! task runtime performs the waiting; every decision — whether a unit
//! may begin, which dispatch index it gets, and how its outcome is
//! recorded — is made here, so the concurrency bound and the outcome
//! count are proved rather than hoped for.

use vstd::prelude::*;
use crate::response::RequestOutcome;

verus! {

/// How many of the outcomes in `s` from position `i` on succeeded.
pub open spec fn count_successes_from(s: Seq<RequestOutcome>, i: int) -> int
    decreases s.len() - i,
{
    if i < 0 || i >= s.len() {
        0
    } else {
        (if s[i].success {
            1int
        } else {
            0int
        }) + count_successes_from(s, i + 1)
    }
}

/// How many of the outcomes in `s` succeeded.
pub open spec fn count_successes(s: Seq<RequestOutcome>) -> int {
    count_successes_from(s, 0)
}

/// How many of the outcomes in `s` from position `i` on failed.
pub open spec fn count_failures_from(s: Seq<RequestOutcome>, i: int) -> int
    decreases s.len() - i,
{
    if i < 0 || i >= s.len() {
        0
    } else {
        (if s[i].success {
            0int
        } else {
            1int
        }) + count_failures_from(s, i + 1)
    }
}

/// How many of the outcomes in `s` failed.
pub open spec fn count_failures(s: Seq<RequestOutcome>) -> int {
    count_failures_from(s, 0)
}

/// Successes and failures partition any batch of outcomes: the two
/// counts always add up to its length.
pub proof fn lemma_outcome_partition(s: Seq<RequestOutcome>)
    ensures
        count_successes(s) + count_failures(s) == s.len(),
        0 <= count_successes(s) <= s.len(),
        0 <= count_failures(s) <= s.len(),
{
    lemma_outcome_partition_from(s, 0);
}

proof fn lemma_outcome_partition_from(s: Seq<RequestOutcome>, i: int)
    requires
        0 <= i <= s.len(),
    ensures
        count_successes_from(s, i) + count_failures_from(s, i) == s.len() - i,
        0 <= count_successes_from(s, i) <= s.len() - i,
        0 <= count_failures_from(s, i) <= s.len() - i,
    decreases s.len() - i,
{
    if i < s.len() {
        lemma_outcome_partition_from(s, i + 1);
    }
}

/// The dispatcher: issues a fixed number of executions while at most
/// `capacity` of them hold an admission permit at any instant, and
/// collects every outcome. A unit acquires its permit through `try_admit`
/// and releases it, success or failure, through `complete`.
pub struct Dispatcher {
    total: usize,
    capacity: usize,
    started: usize,
    in_flight: usize,
    outcomes: Vec<RequestOutcome>,
}

impl Dispatcher {
    /// The configured number of requests.
    pub closed spec fn spec_total(self) -> int {
        self.total as int
    }

    /// How many admission permits exist.
    pub closed spec fn spec_capacity(self) -> int {
        self.capacity as int
    }

    /// How many units were admitted so far, in scheduling order.
    pub closed spec fn spec_started(self) -> int {
        self.started as int
    }

    /// How many units currently hold an admission permit.
    pub closed spec fn spec_in_flight(self) -> int {
        self.in_flight as int
    }

    /// The outcomes recorded so far, in completion order.
    pub closed spec fn outcomes_seq(self) -> Seq<RequestOutcome> {
        self.outcomes@
    }

    /// The dispatcher's invariant: admissions never exceed capacity,
    /// no more than `total` units are ever started, and every started
    /// unit either holds a permit or has its outcome recorded.
    pub open spec fn wf(self) -> bool {
        &&& self.spec_capacity() >= 1
        &&& self.spec_in_flight() <= self.spec_capacity()
        &&& self.spec_started() <= self.spec_total()
        &&& self.outcomes_seq().len() + self.spec_in_flight() == self.spec_started()
    }

    /// A dispatcher for `total` requests admitting at most `capacity`
    /// of them at once.
    pub fn new(total: usize, capacity: usize) -> (d: Dispatcher)
        requires
            capacity >= 1,
        ensures
            d.wf(),
            d.spec_total() == total,
            d.spec_capacity() == capacity,
            d.spec_started() == 0,
            d.spec_in_flight() == 0,
            d.outcomes_seq() == Seq::<RequestOutcome>::empty(),
    {
        let d = Dispatcher { total, capacity, started: 0, in_flight: 0, outcomes: Vec::new() };
        proof {
            assert(d.outcomes_seq() =~= Seq::<RequestOutcome>::empty());
        }
        d
    }

    /// Acquire an admission permit for the next unit, if one is free
    /// and work remains. The returned dispatch index is assigned at
    /// scheduling time, in increasing order from zero. At no instant do
    /// more than `capacity` units hold a permit.
    pub fn try_admit(&mut self) -> (r: Option<usize>)
        requires
            old(self).wf(),
        ensures
            final(self).wf(),
            final(self).spec_in_flight() <= final(self).spec_capacity(),
            final(self).spec_total() == old(self).spec_total(),
            final(self).spec_capacity() == old(self).spec_capacity(),
            final(self).outcomes_seq() == old(self).outcomes_seq(),
            match r {
                Some(i) => {
                    &&& old(self).spec_in_flight() < old(self).spec_capacity()
                    &&& old(self).spec_started() < old(self).spec_total()
                    &&& i == old(self).spec_started()
                    &&& final(self).spec_started() == old(self).spec_started() + 1
                    &&& final(self).spec_in_flight() == old(self).spec_in_flight() + 1
                },
                None => {
                    &&& old(self).spec_in_flight() == old(self).spec_capacity() || old(
                        self,
                    ).spec_started() == old(self).spec_total()
                    &&& *final(self) == *old(self)
                },
            },
    {
        if self.in_flight < self.capacity && self.started < self.total {
            let i = self.started;
            self.started = self.started + 1;
            self.in_flight = self.in_flight + 1;
            Some(i)
        } else {
            None
        }
    }

    /// Record a finished unit's outcome and release its permit. Release
    /// is unconditional — a failed outcome frees capacity exactly like
    /// a successful one, so capacity is never leaked.
    pub fn complete(&mut self, outcome: RequestOutcome)
        requires
            old(self).wf(),
            old(self).spec_in_flight() > 0,
        ensures
            final(self).wf(),
            final(self).spec_in_flight() == old(self).spec_in_flight() - 1,
            final(self).spec_in_flight() <= final(self).spec_capacity(),
            final(self).spec_total() == old(self).spec_total(),
            final(self).spec_capacity() == old(self).spec_capacity(),
            final(self).spec_started() == old(self).spec_started(),
            final(self).outcomes_seq() == old(self).outcomes_seq().push(outcome),
    {
        self.in_flight = self.in_flight - 1;
        self.outcomes.push(outcome);
    }

    /// Whether every scheduled unit has been admitted and completed.
    pub fn is_done(&self) -> (r: bool)
        ensures
            r == (self.spec_started() == self.spec_total() && self.spec_in_flight() == 0),
    {
        self.started == self.total && self.in_flight == 0
    }

    /// The configured number of requests.
    pub fn total(&self) -> (r: usize)
        ensures
            r == self.spec_total(),
    {
        self.total
    }

    /// How many units currently hold an admission permit.
    pub fn in_flight(&self) -> (r: usize)
        ensures
            r == self.spec_in_flight(),
    {
        self.in_flight
    }

    /// How many units were admitted so far.
    pub fn started(&self) -> (r: usize)
        ensures
            r == self.spec_started(),
    {
        self.started
    }

    /// Hand the collected outcomes over, in completion order.
    pub fn outcomes(&self) -> (r: &Vec<RequestOutcome>)
        ensures
            r@ == self.outcomes_seq(),
    {
        &self.outcomes
    }
}

/// A drained dispatcher holds exactly one outcome per configured
/// request, and its successes and failures partition them: dispatching
/// `N` requests yields exactly `N` outcomes with
/// `successes + failures == N`.
pub proof fn lemma_dispatch_yields_all(d: Dispatcher)
    requires
        d.wf(),
        d.spec_started() == d.spec_total(),
        d.spec_in_flight() == 0,
    ensures
        d.outcomes_seq().len() == d.spec_total(),
        count_successes(d.outcomes_seq()) + count_failures(d.outcomes_seq()) == d.spec_total(),
{
    lemma_outcome_partition(d.outcomes_seq());
}

} // verus!
