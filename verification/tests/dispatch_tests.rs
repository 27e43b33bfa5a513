use loadtest::dispatch::Dispatcher;
use loadtest::report::aggregate;
use loadtest::response::RequestOutcome;

#[test]
fn admissions_never_exceed_capacity_and_yield_all_outcomes() {
    let total: usize = 10;
    let cap: usize = 3;
    let mut d = Dispatcher::new(total, cap);

    // Use up the permits: exactly `cap` admissions succeed, then none.
    let mut admitted = Vec::new();
    while let Some(i) = d.try_admit() {
        admitted.push(i);
        assert!(d.in_flight() <= cap);
    }
    assert_eq!(admitted, vec![0, 1, 2]);
    assert_eq!(d.in_flight(), cap);
    assert!(d.try_admit().is_none());

    // Completing one unit frees exactly one slot, failure or not.
    d.complete(RequestOutcome { success: false, latency_micros: 0 });
    assert_eq!(d.in_flight(), cap - 1);
    assert_eq!(d.try_admit(), Some(3));

    // Drain the whole batch.
    loop {
        d.complete(RequestOutcome { success: true, latency_micros: 100 });
        if let Some(i) = d.try_admit() {
            assert!(i < total);
            assert!(d.in_flight() <= cap);
        } else if d.is_done() {
            break;
        }
    }
    assert_eq!(d.outcomes().len(), total);
    assert_eq!(d.started(), total);
    assert_eq!(d.in_flight(), 0);
}

#[test]
fn aggregation_partitions_outcomes() {
    let outcomes = vec![
        RequestOutcome { success: true, latency_micros: 100 },
        RequestOutcome { success: false, latency_micros: 0 },
        RequestOutcome { success: true, latency_micros: 300 },
        RequestOutcome { success: false, latency_micros: 50 },
        RequestOutcome { success: true, latency_micros: 200 },
    ];
    let r = aggregate(&outcomes, 5, 1_000_000);
    assert_eq!(r.total_requests, 5);
    assert_eq!(r.successful_requests, 3);
    assert_eq!(r.failed_requests, 2);
    assert_eq!(r.successful_requests + r.failed_requests, r.total_requests);
    // Successful latencies only, in completion order.
    assert_eq!(r.response_times_micros, vec![100, 300, 200]);
    assert_eq!(r.total_duration_micros, 1_000_000);
    assert_eq!(r.mean_response_micros(), 200);
    assert_eq!(r.min_response_micros(), Some(100));
    assert_eq!(r.max_response_micros(), Some(300));
}

#[test]
fn aggregation_of_all_failures_keeps_no_latencies() {
    let outcomes = vec![
        RequestOutcome { success: false, latency_micros: 10 },
        RequestOutcome { success: false, latency_micros: 20 },
    ];
    let r = aggregate(&outcomes, 2, 500);
    assert_eq!(r.successful_requests, 0);
    assert_eq!(r.failed_requests, 2);
    assert!(r.response_times_micros.is_empty());
    assert_eq!(r.mean_response_micros(), 0);
    assert_eq!(r.min_response_micros(), None);
    assert_eq!(r.max_response_micros(), None);
}
