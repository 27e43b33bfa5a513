use loadtest::orchestrator::{LoadTest, RunPhase};
use loadtest::response::{classify_response, RequestOutcome};
use loadtest::stats::{get_percentile, sort_latencies};

#[test]
fn run_succeeds_end_to_end_with_always_successful_target() {
    let total: usize = 1000;
    let cap: usize = 16;
    let mut lt = LoadTest::new(b"http://localhost:8080/".to_vec(), total, cap, false);
    assert_eq!(lt.phase, RunPhase::NotStarted);

    lt.begin_seed();
    assert_eq!(lt.phase, RunPhase::Seeding);
    lt.seed_finished(200);
    assert_eq!(lt.phase, RunPhase::Dispatching);

    // Drive admission the way the task runtime would: admit as long
    // as permits are free, completing units as capacity runs out. The
    // simulated target always answers success.
    let mut active: usize = 0;
    let mut next_latency: u64 = 0;
    loop {
        if let Some(i) = lt.try_admit() {
            active += 1;
            assert!(active <= cap, "more than {} units admitted at once", cap);
            next_latency = 1000 + ((i as u64) * 37) % 5000;
        } else if active > 0 {
            let body = b"{\"Success\":true,\"UserId\":1}";
            let outcome = classify_response(200, body, next_latency);
            lt.complete(outcome);
            active -= 1;
        } else {
            break;
        }
    }
    assert_eq!(lt.dispatcher.started(), total);
    assert_eq!(lt.dispatcher.in_flight(), 0);

    lt.dispatch_drained();
    assert_eq!(lt.phase, RunPhase::Aggregating);
    let result = lt.finish(2_000_000);
    assert_eq!(lt.phase, RunPhase::Done);

    assert_eq!(result.total_requests, total);
    assert_eq!(result.successful_requests, 1000);
    assert_eq!(result.failed_requests, 0);
    assert_eq!(result.successful_requests + result.failed_requests, total);

    let sorted = sort_latencies(&result.response_times_micros);
    let p50 = get_percentile(&sorted, 50);
    let p95 = get_percentile(&sorted, 95);
    let p99 = get_percentile(&sorted, 99);
    assert!(p50 <= p95);
    assert!(p95 <= p99);
}

#[test]
fn seed_failure_aborts_before_any_measured_request() {
    let total: usize = 1000;
    let mut lt = LoadTest::new(b"http://localhost:8080/".to_vec(), total, 16, false);
    lt.begin_seed();
    lt.seed_finished(500);
    assert_eq!(lt.phase, RunPhase::Failed);

    // Nothing was admitted, nothing was measured.
    assert_eq!(lt.dispatcher.started(), 0);
    assert_eq!(lt.dispatcher.outcomes().len(), 0);

    let result = lt.aborted_result();
    assert_eq!(result.total_requests, total);
    assert_eq!(result.successful_requests, 0);
    assert_eq!(result.failed_requests, 0);
    assert_eq!(result.successful_requests + result.failed_requests, 0);
    assert!(result.response_times_micros.is_empty());
}

#[test]
fn mixed_outcomes_are_absorbed_not_fatal() {
    let total: usize = 8;
    let mut lt = LoadTest::new(b"http://h:%4000/a/".to_vec(), total, 2, true);
    lt.begin_seed();
    lt.seed_finished(204);
    let mut served: usize = 0;
    loop {
        if let Some(i) = lt.try_admit() {
            // Every odd request hits a transport failure.
            let outcome = if i % 2 == 1 {
                RequestOutcome { success: false, latency_micros: 0 }
            } else {
                classify_response(200, b"{\"Success\":true,\"UserId\":12345}", 700)
            };
            lt.complete(outcome);
            served += 1;
        } else if served == total {
            break;
        }
    }
    lt.dispatch_drained();
    let result = lt.finish(3_500);
    assert_eq!(result.successful_requests, 4);
    assert_eq!(result.failed_requests, 4);
    assert_eq!(result.response_times_micros, vec![700, 700, 700, 700]);
}
