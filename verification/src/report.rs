//! Aggregation of a finished batch's outcomes into one immutable result.

use vstd::prelude::*;
use crate::dispatch::{count_failures, count_failures_from, count_successes, count_successes_from,
    lemma_outcome_partition};
use crate::response::RequestOutcome;
use crate::stats::{max_latency, mean_latency, mean_of, min_latency};

verus! {

/// The latencies of the successful outcomes of `s` from position `i`
/// on, in the order the outcomes completed.
pub open spec fn success_latencies_from(s: Seq<RequestOutcome>, i: int) -> Seq<u64>
    decreases s.len() - i,
{
    if i < 0 || i >= s.len() {
        Seq::empty()
    } else if s[i].success {
        seq![s[i].latency_micros] + success_latencies_from(s, i + 1)
    } else {
        success_latencies_from(s, i + 1)
    }
}

/// The latencies of the successful outcomes of `s`, in completion
/// order.
pub open spec fn success_latencies(s: Seq<RequestOutcome>) -> Seq<u64> {
    success_latencies_from(s, 0)
}

/// There is one retained latency per successful outcome.
pub proof fn lemma_success_latencies_len(s: Seq<RequestOutcome>)
    ensures
        success_latencies(s).len() == count_successes(s),
{
    lemma_success_latencies_len_from(s, 0);
}

proof fn lemma_success_latencies_len_from(s: Seq<RequestOutcome>, i: int)
    ensures
        success_latencies_from(s, i).len() == count_successes_from(s, i),
    decreases s.len() - i,
{
    if 0 <= i < s.len() {
        lemma_success_latencies_len_from(s, i + 1);
    }
}

/// One load test run's aggregate result, constructed once after every
/// outcome is terminal and read-only thereafter. All durations are in
/// integer microseconds.
pub struct LoadTestResult {
    pub total_duration_micros: u64,
    pub total_requests: usize,
    pub successful_requests: usize,
    pub failed_requests: usize,
    pub response_times_micros: Vec<u64>,
}

impl LoadTestResult {
    /// The mean latency of the successful requests, rounded down; zero
    /// when none succeeded.
    pub fn mean_response_micros(&self) -> (r: u64)
        ensures
            r == mean_of(self.response_times_micros@),
    {
        mean_latency(&self.response_times_micros)
    }

    /// The smallest successful latency. Absent when nothing succeeded:
    /// that boundary is handed to the consumer to special-case (the
    /// classical rendering is an infinite sentinel), never a number.
    pub fn min_response_micros(&self) -> (r: Option<u64>)
        ensures
            match r {
                Some(m) => self.response_times_micros@.contains(m) && forall|i: int|
                    0 <= i < self.response_times_micros@.len() ==> m
                        <= #[trigger] self.response_times_micros@[i],
                None => self.response_times_micros@.len() == 0,
            },
    {
        min_latency(&self.response_times_micros)
    }

    /// The largest successful latency, absent when nothing succeeded.
    pub fn max_response_micros(&self) -> (r: Option<u64>)
        ensures
            match r {
                Some(m) => self.response_times_micros@.contains(m) && forall|i: int|
                    0 <= i < self.response_times_micros@.len() ==> m
                        >= #[trigger] self.response_times_micros@[i],
                None => self.response_times_micros@.len() == 0,
            },
    {
        max_latency(&self.response_times_micros)
    }
}

/// Fold a complete batch of outcomes into a result: the successes and
/// failures are counted — together they always equal the attempted
/// total — and the successful latencies are kept in completion order.
pub fn aggregate(
    outcomes: &Vec<RequestOutcome>,
    total_requests: usize,
    total_duration_micros: u64,
) -> (r: LoadTestResult)
    requires
        outcomes@.len() == total_requests,
    ensures
        r.total_requests == total_requests,
        r.total_duration_micros == total_duration_micros,
        r.successful_requests == count_successes(outcomes@),
        r.failed_requests == count_failures(outcomes@),
        r.successful_requests + r.failed_requests == total_requests,
        r.response_times_micros@ == success_latencies(outcomes@),
        r.response_times_micros@.len() == r.successful_requests,
{
    let mut succ: usize = 0;
    let mut fail: usize = 0;
    let mut times: Vec<u64> = Vec::new();
    let mut i: usize = 0;
    while i < outcomes.len()
        invariant
            i <= outcomes@.len(),
            succ <= i,
            fail <= i,
            count_successes(outcomes@) == succ + count_successes_from(outcomes@, i as int),
            count_failures(outcomes@) == fail + count_failures_from(outcomes@, i as int),
            success_latencies(outcomes@) == times@ + success_latencies_from(
                outcomes@,
                i as int,
            ),
        decreases outcomes@.len() - i,
    {
        let o = outcomes[i];
        if o.success {
            succ = succ + 1;
            times.push(o.latency_micros);
        } else {
            fail = fail + 1;
        }
        i = i + 1;
    }
    proof {
        assert(times@ + success_latencies_from(outcomes@, outcomes@.len() as int) =~= times@);
        lemma_outcome_partition(outcomes@);
        lemma_success_latencies_len(outcomes@);
    }
    LoadTestResult {
        total_duration_micros,
        total_requests,
        successful_requests: succ,
        failed_requests: fail,
        response_times_micros: times,
    }
}

} // verus!
