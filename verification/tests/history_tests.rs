use resource_governor::history::{MemoryMonitor, MemoryUsage, MAX_SAMPLES};

fn sample(rss: u64, ts: u64) -> MemoryUsage {
    MemoryUsage {
        rss,
        heap_total: 2 * rss,
        heap_used: rss,
        external: 0,
        timestamp: ts,
    }
}

#[test]
fn empty_monitor_has_no_stats() {
    let monitor = MemoryMonitor::new(0);
    assert!(monitor.get_stats(10).is_none());
}

#[test]
fn stats_after_three_samples() {
    let mut monitor = MemoryMonitor::new(100);
    monitor.add_sample(sample(10, 1));
    monitor.add_sample(sample(50, 2));
    monitor.add_sample(sample(20, 3));

    let stats = monitor.get_stats(600).unwrap();
    assert_eq!(stats.usage, sample(20, 3));
    assert_eq!(stats.peak_usage, sample(50, 2));
    assert_eq!(stats.average_usage.rss, (10 + 50 + 20) / 3);
    assert_eq!(stats.average_usage.heap_total, (20 + 100 + 40) / 3);
    assert_eq!(stats.average_usage.timestamp, 3);
    assert_eq!(stats.total_samples, 3);
    assert_eq!(stats.monitoring_duration_ms, 500);
}

#[test]
fn peak_dominates_all_retained_samples() {
    let mut monitor = MemoryMonitor::new(0);
    let values = [10u64, 50, 20, 49, 50, 7];
    for (i, v) in values.iter().enumerate() {
        monitor.add_sample(sample(*v, i as u64));
    }
    let stats = monitor.get_stats(0).unwrap();
    assert!(values.iter().all(|v| *v <= stats.peak_usage.rss));
    assert_eq!(stats.peak_usage.rss, 50);
    // the cached peak is the first sample that reached the maximum
    assert_eq!(stats.peak_usage.timestamp, 1);
}

#[test]
fn history_keeps_only_the_most_recent_thousand() {
    let mut monitor = MemoryMonitor::new(0);
    let recorded = MAX_SAMPLES + 5;
    for i in 0..recorded {
        monitor.add_sample(sample(i as u64, i as u64));
    }
    let stats = monitor.get_stats(0).unwrap();
    assert_eq!(stats.total_samples as usize, MAX_SAMPLES);
    // latest is the last recorded sample
    assert_eq!(stats.usage.rss, recorded as u64 - 1);
    // retained samples are exactly 5 ..= 1004, so the truncated mean of
    // their resident sizes is (5 + 1004) * 1000 / 2 / 1000
    assert_eq!(stats.average_usage.rss, 504);
}

#[test]
fn fewer_records_than_capacity_keeps_them_all() {
    let mut monitor = MemoryMonitor::new(0);
    for i in 0..17 {
        monitor.add_sample(sample(1, i));
    }
    let stats = monitor.get_stats(0).unwrap();
    assert_eq!(stats.total_samples, 17);
    assert_eq!(stats.average_usage.rss, 1);
}

#[test]
fn reset_clears_samples_and_restarts_the_clock() {
    let mut monitor = MemoryMonitor::new(0);
    monitor.add_sample(sample(99, 1));
    monitor.reset(1000);
    assert!(monitor.get_stats(1000).is_none());
    monitor.add_sample(sample(3, 1001));
    let stats = monitor.get_stats(1500).unwrap();
    assert_eq!(stats.peak_usage.rss, 3);
    assert_eq!(stats.monitoring_duration_ms, 500);
}

#[test]
fn peak_survives_eviction_of_its_sample() {
    let mut monitor = MemoryMonitor::new(0);
    monitor.add_sample(sample(9000, 0));
    for i in 0..MAX_SAMPLES as u64 {
        monitor.add_sample(sample(10, i + 1));
    }
    let stats = monitor.get_stats(0).unwrap();
    // the early maximum has been evicted from the buffer...
    assert_eq!(stats.total_samples as usize, MAX_SAMPLES);
    assert_eq!(stats.average_usage.rss, 10);
    // ...but it is still the cached peak
    assert_eq!(stats.peak_usage.rss, 9000);
}
