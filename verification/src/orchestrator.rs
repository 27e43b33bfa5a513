//! The run's linear state machine: seed once, dispatch, aggregate. A
//! seed failure is the run's only fatal error and arrives before any
//! measured request; every per-request failure is absorbed into the
//! statistics.

use vstd::prelude::*;
use crate::dispatch::Dispatcher;
use crate::report::{aggregate, LoadTestResult};
use crate::resolver::{parse_template, TargetSpec};
use crate::response::{status_ok, RequestOutcome};

verus! {

/// Where a run stands. The phases are linear but for the seed failure,
/// which is terminal.
#[derive(Clone, Copy, PartialEq, Eq, Structural, Debug)]
pub enum RunPhase {
    NotStarted,
    Seeding,
    Dispatching,
    Aggregating,
    Done,
    Failed,
}

/// One load test run: its immutable target description, its phase, and
/// its dispatcher. The no-storage flag replaces every derived identity
/// with the reserved sentinel.
pub struct LoadTest {
    pub target: TargetSpec,
    pub no_db: bool,
    pub phase: RunPhase,
    pub dispatcher: Dispatcher,
}

impl LoadTest {
    /// The run's invariant: the dispatcher and target are well formed,
    /// and before dispatching begins — in particular in the terminal
    /// `Failed` phase a seed failure leads to — not a single request
    /// has been admitted and no outcome exists.
    pub open spec fn wf(self) -> bool {
        &&& self.dispatcher.wf()
        &&& self.target.wf()
        &&& (self.phase is NotStarted || self.phase is Seeding || self.phase is Failed)
            ==> self.dispatcher.spec_started() == 0 && self.dispatcher.outcomes_seq().len() == 0
    }

    /// Configure a run: decompose the URL template once and size the
    /// admission bound.
    pub fn new(template: Vec<u8>, total_requests: usize, concurrency: usize, no_db: bool) -> (r:
        LoadTest)
        requires
            concurrency >= 1,
        ensures
            r.wf(),
            r.phase is NotStarted,
            r.no_db == no_db,
            r.target.template@ == template@,
            r.dispatcher.spec_total() == total_requests,
            r.dispatcher.spec_capacity() == concurrency,
    {
        LoadTest {
            target: parse_template(template),
            no_db,
            phase: RunPhase::NotStarted,
            dispatcher: Dispatcher::new(total_requests, concurrency),
        }
    }

    /// Enter the seeding phase: the one-time seed call strictly
    /// precedes every measured request.
    pub fn begin_seed(&mut self)
        requires
            old(self).wf(),
            old(self).phase is NotStarted,
        ensures
            final(self).wf(),
            final(self).phase is Seeding,
            final(self).dispatcher == old(self).dispatcher,
            final(self).target == old(self).target,
            final(self).no_db == old(self).no_db,
    {
        self.phase = RunPhase::Seeding;
    }

    /// Record the seed call's status: a success status opens
    /// dispatching, anything else ends the run with zero measured
    /// requests.
    pub fn seed_finished(&mut self, status: u16)
        requires
            old(self).wf(),
            old(self).phase is Seeding,
        ensures
            final(self).wf(),
            status_ok(status) ==> final(self).phase is Dispatching,
            !status_ok(status) ==> final(self).phase is Failed,
            final(self).dispatcher == old(self).dispatcher,
            final(self).target == old(self).target,
            final(self).no_db == old(self).no_db,
    {
        if crate::response::status_is_success(status) {
            self.phase = RunPhase::Dispatching;
        } else {
            self.phase = RunPhase::Failed;
        }
    }

    /// Admit the next unit, if the concurrency bound has room and
    /// work remains; its dispatch index is handed out in scheduling
    /// order.
    pub fn try_admit(&mut self) -> (r: Option<usize>)
        requires
            old(self).wf(),
            old(self).phase is Dispatching,
        ensures
            final(self).wf(),
            final(self).phase is Dispatching,
            final(self).target == old(self).target,
            final(self).no_db == old(self).no_db,
            final(self).dispatcher.spec_total() == old(self).dispatcher.spec_total(),
            final(self).dispatcher.spec_capacity() == old(self).dispatcher.spec_capacity(),
            final(self).dispatcher.outcomes_seq() == old(self).dispatcher.outcomes_seq(),
            final(self).dispatcher.spec_in_flight() <= final(self).dispatcher.spec_capacity(),
            match r {
                Some(i) => {
                    &&& i == old(self).dispatcher.spec_started()
                    &&& final(self).dispatcher.spec_started() == old(
                        self,
                    ).dispatcher.spec_started() + 1
                    &&& final(self).dispatcher.spec_in_flight() == old(
                        self,
                    ).dispatcher.spec_in_flight() + 1
                },
                None => final(self).dispatcher == old(self).dispatcher,
            },
    {
        self.dispatcher.try_admit()
    }

    /// Record a finished unit's outcome and release its admission,
    /// unconditionally.
    pub fn complete(&mut self, outcome: RequestOutcome)
        requires
            old(self).wf(),
            old(self).phase is Dispatching,
            old(self).dispatcher.spec_in_flight() > 0,
        ensures
            final(self).wf(),
            final(self).phase is Dispatching,
            final(self).target == old(self).target,
            final(self).no_db == old(self).no_db,
            final(self).dispatcher.spec_total() == old(self).dispatcher.spec_total(),
            final(self).dispatcher.spec_capacity() == old(self).dispatcher.spec_capacity(),
            final(self).dispatcher.spec_started() == old(self).dispatcher.spec_started(),
            final(self).dispatcher.spec_in_flight() == old(self).dispatcher.spec_in_flight() - 1,
            final(self).dispatcher.outcomes_seq() == old(self).dispatcher.outcomes_seq().push(
                outcome,
            ),
    {
        self.dispatcher.complete(outcome);
    }

    /// Leave dispatching once every unit is terminal: no partial
    /// results, the batch always drains.
    pub fn dispatch_drained(&mut self)
        requires
            old(self).wf(),
            old(self).phase is Dispatching,
            old(self).dispatcher.spec_started() == old(self).dispatcher.spec_total(),
            old(self).dispatcher.spec_in_flight() == 0,
        ensures
            final(self).wf(),
            final(self).phase is Aggregating,
            final(self).dispatcher == old(self).dispatcher,
            final(self).target == old(self).target,
            final(self).no_db == old(self).no_db,
    {
        self.phase = RunPhase::Aggregating;
    }

    /// Fold the collected outcomes into the run's result. Exactly one
    /// outcome exists per configured request, and the result's success
    /// and failure counts partition them.
    pub fn finish(&mut self, total_duration_micros: u64) -> (r: LoadTestResult)
        requires
            old(self).wf(),
            old(self).phase is Aggregating,
            old(self).dispatcher.spec_started() == old(self).dispatcher.spec_total(),
            old(self).dispatcher.spec_in_flight() == 0,
        ensures
            final(self).wf(),
            final(self).phase is Done,
            final(self).dispatcher == old(self).dispatcher,
            r.total_requests == old(self).dispatcher.spec_total(),
            r.total_duration_micros == total_duration_micros,
            r.successful_requests == crate::dispatch::count_successes(
                old(self).dispatcher.outcomes_seq(),
            ),
            r.failed_requests == crate::dispatch::count_failures(
                old(self).dispatcher.outcomes_seq(),
            ),
            r.successful_requests + r.failed_requests == r.total_requests,
            r.response_times_micros@ == crate::report::success_latencies(
                old(self).dispatcher.outcomes_seq(),
            ),
    {
        self.phase = RunPhase::Done;
        let total = self.dispatcher.total();
        aggregate(self.dispatcher.outcomes(), total, total_duration_micros)
    }

    /// The result of a run whose seeding failed: the configured request
    /// count is reported, but nothing was measured — zero successes,
    /// zero failures, no latencies, no duration.
    pub fn aborted_result(&self) -> (r: LoadTestResult)
        requires
            self.wf(),
            self.phase is Failed,
        ensures
            r.total_requests == self.dispatcher.spec_total(),
            r.successful_requests == 0,
            r.failed_requests == 0,
            r.response_times_micros@ == Seq::<u64>::empty(),
            r.total_duration_micros == 0,
    {
        let r = LoadTestResult {
            total_duration_micros: 0,
            total_requests: self.dispatcher.total(),
            successful_requests: 0,
            failed_requests: 0,
            response_times_micros: Vec::new(),
        };
        proof {
            assert(r.response_times_micros@ =~= Seq::<u64>::empty());
        }
        r
    }
}

} // verus!
