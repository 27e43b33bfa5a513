use loadtest::stats::{get_percentile, max_latency, mean_latency, min_latency, sort_latencies};

#[test]
fn percentile_interpolates_between_order_statistics() {
    // rank = 0.5 * 3 = 1.5, halfway between 20 and 30.
    let sorted: Vec<u64> = vec![10, 20, 30, 40];
    assert_eq!(get_percentile(&sorted, 50), 25);
}

#[test]
fn percentile_single_element_no_interpolation() {
    let sorted: Vec<u64> = vec![5];
    assert_eq!(get_percentile(&sorted, 99), 5);
}

#[test]
fn percentile_empty_is_zero() {
    let sorted: Vec<u64> = vec![];
    assert_eq!(get_percentile(&sorted, 95), 0);
}

#[test]
fn percentile_exact_rank() {
    // rank = 0.5 * 4 = 2 exactly: the middle element.
    let sorted: Vec<u64> = vec![10, 20, 30, 40, 50];
    assert_eq!(get_percentile(&sorted, 50), 30);
    assert_eq!(get_percentile(&sorted, 0), 10);
    assert_eq!(get_percentile(&sorted, 100), 50);
}

#[test]
fn percentile_p95_p99() {
    let sorted: Vec<u64> = (1..=100).collect();
    // rank = 0.95 * 99 = 94.05: 95 + 0.05 interpolated toward 96, floored.
    assert_eq!(get_percentile(&sorted, 95), 95);
    // rank = 0.99 * 99 = 98.01.
    assert_eq!(get_percentile(&sorted, 99), 99);
}

#[test]
fn sort_orders_and_keeps_duplicates() {
    let v: Vec<u64> = vec![30, 10, 20, 10, 40];
    let s = sort_latencies(&v);
    assert_eq!(s, vec![10, 10, 20, 30, 40]);
}

#[test]
fn sort_empty_and_single() {
    let v: Vec<u64> = vec![];
    assert_eq!(sort_latencies(&v), Vec::<u64>::new());
    let v1: Vec<u64> = vec![7];
    assert_eq!(sort_latencies(&v1), vec![7]);
}

#[test]
fn mean_rounds_down_and_empty_is_zero() {
    let v: Vec<u64> = vec![10, 20, 31];
    assert_eq!(mean_latency(&v), 20);
    let e: Vec<u64> = vec![];
    assert_eq!(mean_latency(&e), 0);
}

#[test]
fn min_max_defined_only_when_nonempty() {
    let v: Vec<u64> = vec![30, 10, 40];
    assert_eq!(min_latency(&v), Some(10));
    assert_eq!(max_latency(&v), Some(40));
    let e: Vec<u64> = vec![];
    assert_eq!(min_latency(&e), None);
    assert_eq!(max_latency(&e), None);
}
