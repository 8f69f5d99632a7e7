use quant_platform::latency::{LatencyStats, LatencySummary};

#[test]
fn empty_stats_have_no_summary() {
    let mut stats = LatencyStats::new();
    assert_eq!(stats.summarize(), None);
    assert!(stats.samples().is_empty());
}

#[test]
fn summary_of_five_samples() {
    let mut stats = LatencyStats::new();
    for ns in [5u128, 1, 3, 2, 4] {
        stats.push(ns);
    }
    let s = stats.summarize().unwrap();
    assert_eq!(s, LatencySummary { count: 5, min: 1, max: 5, p50: 3, p90: 5, p99: 5, total: 15 });
    assert_eq!(stats.samples(), &vec![1, 2, 3, 4, 5]);
}

#[test]
fn summary_percentiles_of_hundred_and_one_samples() {
    let mut stats = LatencyStats::new();
    for ns in (0u128..=100).rev() {
        stats.push(ns * 10);
    }
    let s = stats.summarize().unwrap();
    assert_eq!(s.count, 101);
    assert_eq!(s.min, 0);
    assert_eq!(s.max, 1000);
    assert_eq!(s.p50, 500);
    assert_eq!(s.p90, 900);
    assert_eq!(s.p99, 990);
    assert_eq!(s.total, 50500);
    assert!(s.min <= s.p50 && s.p50 <= s.p90 && s.p90 <= s.p99 && s.p99 <= s.max);
}

#[test]
fn single_sample_summary() {
    let mut stats = LatencyStats::new();
    stats.push(42);
    let s = stats.summarize().unwrap();
    assert_eq!(s, LatencySummary { count: 1, min: 42, max: 42, p50: 42, p90: 42, p99: 42, total: 42 });
}

#[test]
fn percentile_rounds_half_up() {
    let mut stats = LatencyStats::new();
    for ns in [10u128, 20, 30, 40] {
        stats.push(ns);
    }
    // 50% of 3 positions is 1.5, which rounds to position 2.
    assert_eq!(stats.percentile(50), 30);
    assert_eq!(stats.percentile(0), 10);
    assert_eq!(stats.percentile(100), 40);
    // 90% of 3 is 2.7: position 3.
    assert_eq!(stats.percentile(90), 40);
}

#[test]
fn percentile_reads_current_order() {
    let mut stats = LatencyStats::new();
    for ns in [9u128, 1, 5] {
        stats.push(ns);
    }
    assert_eq!(stats.percentile(0), 9);
    stats.summarize();
    assert_eq!(stats.percentile(0), 1);
}

#[test]
fn push_appends() {
    let mut stats = LatencyStats::new();
    stats.push(7);
    stats.push(3);
    assert_eq!(stats.samples(), &vec![7, 3]);
}
