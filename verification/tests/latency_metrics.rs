use dither_node::latency_metrics::LatencyMetrics;
use dither_node::latency_metrics::MAX_MEASUREMENT_COUNT;

#[test]
fn new_metrics_hold_one_sample() {
    let metrics = LatencyMetrics::new(1_500, 10);
    assert_eq!(metrics.len(), 1);
    assert_eq!(metrics.latest_latency(), 1_500);
    assert_eq!(metrics.min_latency(), 1_500);
    assert_eq!(metrics.last_update(), 10);
    assert_eq!(metrics.pending_pings(), 0);
}

#[test]
fn window_never_exceeds_twenty_samples() {
    let mut metrics = LatencyMetrics::new(1_000, 0);
    for step in 1..100u64 {
        metrics.register_latency(1_000 + step, step);
        assert!(metrics.len() >= 1);
        assert!(metrics.len() <= MAX_MEASUREMENT_COUNT);
        assert_eq!(metrics.latest_latency(), 1_000 + step);
    }
    assert_eq!(metrics.len(), 20);
    assert_eq!(metrics.min_latency(), 1_080);
    assert_eq!(metrics.last_update(), 99);
}

#[test]
fn window_reaches_twenty_samples() {
    let mut metrics = LatencyMetrics::new(5, 0);
    for step in 1..20u64 {
        metrics.register_latency(5, step);
    }
    assert_eq!(metrics.len(), 20);
    metrics.register_latency(5, 20);
    assert_eq!(metrics.len(), 20);
}

#[test]
fn min_latency_is_smallest_sample_in_window() {
    let mut metrics = LatencyMetrics::new(900, 0);
    metrics.register_latency(300, 1);
    metrics.register_latency(700, 2);
    assert_eq!(metrics.min_latency(), 300);
    assert_eq!(metrics.latest_latency(), 700);
    for step in 0..19u64 {
        metrics.register_latency(800, 3 + step);
    }
    assert_eq!(metrics.min_latency(), 700);
    metrics.register_latency(800, 30);
    assert_eq!(metrics.min_latency(), 800);
}

#[test]
fn fresh_metrics_want_the_window_filled() {
    let mut metrics = LatencyMetrics::new(1_000, 0);
    assert_eq!(metrics.how_many_more_pings(10), Some(19));
    assert_eq!(metrics.pending_pings(), 19);
    assert_eq!(metrics.how_many_more_pings(11), None);
    metrics.register_latency(1_000, 12);
    assert_eq!(metrics.pending_pings(), 18);
    assert_eq!(metrics.how_many_more_pings(13), None);
}

#[test]
fn full_window_wants_nothing_until_timeout() {
    let mut metrics = LatencyMetrics::new(1_000, 0);
    for step in 1..20u64 {
        metrics.register_latency(1_000, step);
    }
    assert_eq!(metrics.last_update(), 19);
    assert_eq!(metrics.how_many_more_pings(19 + 3_000_000), Some(0));
    assert_eq!(metrics.pending_pings(), 0);
    assert_eq!(metrics.how_many_more_pings(19 + 3_000_001), Some(1));
    assert_eq!(metrics.pending_pings(), 1);
}

#[test]
fn ping_window_refill_after_stall() {
    let mut metrics = LatencyMetrics::new(2_000, 0);
    for step in 1..20u64 {
        metrics.register_latency(2_000, step * 1_000);
    }
    let idle_since = metrics.last_update();
    let now = idle_since + 3_100_000;
    assert_eq!(metrics.how_many_more_pings(now), Some(1));
    metrics.register_latency(2_100, now + 2_100);
    assert_eq!(metrics.pending_pings(), 0);
    assert_eq!(metrics.latest_latency(), 2_100);
    assert_eq!(metrics.last_update(), now + 2_100);
}

#[test]
fn staleness_starts_after_one_second() {
    let metrics = LatencyMetrics::new(2_000, 500);
    assert!(!metrics.is_stale(500));
    assert!(!metrics.is_stale(1_000_500));
    assert!(metrics.is_stale(1_000_501));
    assert!(!metrics.is_stale(0));
}

#[test]
fn snapshot_copies_the_metrics() {
    let mut metrics = LatencyMetrics::new(40, 1);
    metrics.register_latency(30, 2);
    assert_eq!(metrics.how_many_more_pings(3), Some(18));
    let copy = metrics.snapshot();
    assert_eq!(copy.len(), 2);
    assert_eq!(copy.min_latency(), 30);
    assert_eq!(copy.latest_latency(), 30);
    assert_eq!(copy.last_update(), 2);
    assert_eq!(copy.pending_pings(), 18);
}
