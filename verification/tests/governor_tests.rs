use resource_governor::gpu::{
    active_offload_count, get_total_offloaded_memory, increment_optimization_count, offload,
    GpuContext, OFFLOAD_BLOCK_BYTES,
};
use resource_governor::optimization::{
    adaptive_optimization, advanced_memory_optimization, calculate_optimization_urgency,
    cleanup_gpu_memory, get_memory_statistics, is_memory_over_threshold, monitor_should_continue,
    monitor_tick, perform_automatic_memory_optimization, perform_light_optimization,
    perform_manual_optimization, profile_system_performance, run_acceleration_task, run_benchmark,
    Platform, SIMULATED_GPU_MEMORY_MB,
};
use resource_governor::gpu::initialize_gpu_system;
use resource_governor::{GPU_OFFLOAD_THRESHOLD_MB, MAX_APP_MEMORY_MB};

#[test]
fn urgency_scenario_with_design_thresholds() {
    // cap = 100, threshold = 160 (the soft threshold sits above the cap)
    assert_eq!(MAX_APP_MEMORY_MB, 100);
    assert_eq!(GPU_OFFLOAD_THRESHOLD_MB, 160);
    assert_eq!(calculate_optimization_urgency(100), 0);
    // 50 + 50 * (200 - 160) / 160 = 62.5
    assert_eq!(calculate_optimization_urgency(200), 6250);
    // below the cap the score is zero
    assert_eq!(calculate_optimization_urgency(90), 0);
}

#[test]
fn urgency_is_zero_at_cap_fifty_at_threshold_and_saturates() {
    assert_eq!(calculate_optimization_urgency(0), 0);
    assert_eq!(calculate_optimization_urgency(MAX_APP_MEMORY_MB), 0);
    assert_eq!(calculate_optimization_urgency(130), 2500);
    assert_eq!(calculate_optimization_urgency(GPU_OFFLOAD_THRESHOLD_MB), 5000);
    assert_eq!(calculate_optimization_urgency(320), 10000);
    assert_eq!(calculate_optimization_urgency(u64::MAX), 10000);
}

#[test]
fn urgency_is_monotone_on_a_sweep() {
    let mut last = 0;
    for usage in 0..500 {
        let u = calculate_optimization_urgency(usage);
        assert!(u >= last, "urgency dropped at usage {usage}");
        assert!(u <= 10000);
        last = u;
    }
}

#[test]
fn threshold_check_matches_the_soft_ceiling() {
    assert!(!is_memory_over_threshold(160));
    assert!(is_memory_over_threshold(161));
}

#[test]
fn light_tier_leaves_the_cache_alone() {
    let r = perform_light_optimization(12, 99);
    assert!(r.success);
    assert_eq!(r.performance_gain, 1000);
    assert_eq!(r.memory_saved_mb, 3);
    assert!(!r.used_gpu);
    assert!(r.error_message.is_none());
    assert_eq!(r.execution_time_ms, 12);
    assert_eq!(r.timestamp, 99);
    assert_eq!(r.message, "light optimization complete");
}

#[test]
fn standard_tier_reports_the_measured_saving() {
    let mut ctx = GpuContext::new();
    let r = perform_manual_optimization(&mut ctx, 100, 80, 7, 42);
    assert!(r.success);
    assert_eq!(r.memory_saved_mb, 20);
    // 20 / 100 = 20.00 %
    assert_eq!(r.performance_gain, 2000);
    assert!(r.used_gpu);
    assert_eq!(r.execution_time_ms, 7);
    assert_eq!(active_offload_count(&ctx), 1);
    assert_eq!(get_total_offloaded_memory(&ctx), OFFLOAD_BLOCK_BYTES as u64);
}

#[test]
fn standard_tier_falls_back_on_degenerate_measurements() {
    let mut ctx = GpuContext::new();
    // no measured drop: fixed 5 MB saving; zero start: fixed 25 % gain
    let r = perform_manual_optimization(&mut ctx, 0, 5, 1, 2);
    assert_eq!(r.memory_saved_mb, 5);
    assert_eq!(r.performance_gain, 2500);
}

#[test]
fn advanced_tier_gain_is_twenty_percent_plus_half_the_reduction() {
    let mut ctx = GpuContext::new();
    let r = advanced_memory_optimization(&mut ctx, 100, 80, 3, 4);
    assert!(r.success);
    assert_eq!(r.memory_saved_mb, 20);
    // 20 % + 50 % * (20 / 100) = 30 %
    assert_eq!(r.performance_gain, 3000);
    assert_eq!(r.message, "advanced memory optimization complete");
    assert_eq!(active_offload_count(&ctx), 1);
}

#[test]
fn advanced_tier_gain_degrades_when_memory_grew() {
    // memory grew during the pass: the reduction ratio is negative and
    // the gain falls below 20 %
    let mut ctx = GpuContext::new();
    let r = advanced_memory_optimization(&mut ctx, 100, 120, 1, 2);
    // 20 % + 50 % * (-20 / 100) = 10 %
    assert_eq!(r.performance_gain, 1000);
    assert_eq!(r.memory_saved_mb, 15); // no measured drop: fixed fallback

    // at -40 % reduction the gain reaches exactly zero, and the
    // unsigned record clamps anything beyond there
    let r = advanced_memory_optimization(&mut ctx, 100, 140, 1, 2);
    assert_eq!(r.performance_gain, 0);
    let r = advanced_memory_optimization(&mut ctx, 100, 200, 1, 2);
    assert_eq!(r.performance_gain, 0);

    // a regression that does not divide evenly floors the real value:
    // 20 % + 50 % * (-1 / 3) = 3.33 %
    let r = advanced_memory_optimization(&mut ctx, 3, 4, 1, 2);
    assert_eq!(r.performance_gain, 333);
}

#[test]
fn advanced_tier_gain_at_larger_reductions() {
    let mut ctx = GpuContext::new();
    // 20 % + 50 % * (50 / 100) = 45 %
    let r = advanced_memory_optimization(&mut ctx, 100, 50, 1, 2);
    assert_eq!(r.performance_gain, 4500);
    // 20 % + 50 % * (200 / 200) = 70 %, still under the 80 % cap
    let r = advanced_memory_optimization(&mut ctx, 200, 0, 1, 2);
    assert_eq!(r.performance_gain, 7000);
}

#[test]
fn advanced_tier_falls_back_on_degenerate_measurements() {
    let mut ctx = GpuContext::new();
    let r = advanced_memory_optimization(&mut ctx, 0, 0, 1, 2);
    assert_eq!(r.memory_saved_mb, 15);
    assert_eq!(r.performance_gain, 3500);
}

#[test]
fn adaptive_path_selects_the_tier_by_urgency() {
    // urgency 0 -> light, cache untouched
    let mut ctx = GpuContext::new();
    let r = adaptive_optimization(&mut ctx, 90, 100, 80, 1, 2);
    assert!(!r.used_gpu);
    assert_eq!(r.performance_gain, 1000);
    assert_eq!(active_offload_count(&ctx), 0);

    // urgency 25.00 -> standard
    let r = adaptive_optimization(&mut ctx, 130, 100, 80, 1, 2);
    assert_eq!(r.performance_gain, 2000);
    assert_eq!(r.message, "memory optimization complete");
    assert_eq!(active_offload_count(&ctx), 1);

    // urgency 100.00 -> advanced
    let r = adaptive_optimization(&mut ctx, 400, 100, 80, 1, 2);
    assert_eq!(r.performance_gain, 3000);
    assert_eq!(r.message, "advanced memory optimization complete");
    assert_eq!(active_offload_count(&ctx), 2);
}

#[test]
fn cleanup_empties_the_cache_and_reports_a_floor_saving() {
    let mut ctx = GpuContext::new();
    assert!(offload(&mut ctx, vec![0u8; 4096], 1, 0));
    let r = cleanup_gpu_memory(&mut ctx, 50, 45, 9, 10);
    assert!(r.success);
    assert_eq!(r.memory_saved_mb, 5);
    assert_eq!(r.performance_gain, 1500);
    assert_eq!(active_offload_count(&ctx), 0);
    assert_eq!(get_total_offloaded_memory(&ctx), 0);

    // without a measured drop the report falls back to 10 MB
    let r = cleanup_gpu_memory(&mut ctx, 10, 20, 1, 2);
    assert_eq!(r.memory_saved_mb, 10);
}

#[test]
fn acceleration_reports_the_platform_multiplier() {
    // 2.8x on linux is a 180 % gain
    let r = run_acceleration_task(Platform::Linux, 11, 12);
    assert!(r.success);
    assert_eq!(r.performance_gain, 18000);
    assert_eq!(r.memory_saved_mb, 5);
    let r = run_acceleration_task(Platform::Windows, 1, 2);
    assert_eq!(r.performance_gain, 22000);
    let r = run_acceleration_task(Platform::MacOs, 1, 2);
    assert_eq!(r.performance_gain, 15000);
}

#[test]
fn benchmark_fails_only_without_platform_figures() {
    let r = run_benchmark(Platform::Linux, 1, 2);
    assert!(r.success);
    assert_eq!(r.performance_gain, 17000);
    assert!(r.error_message.is_none());

    let r = run_benchmark(Platform::Other, 1, 2);
    assert!(!r.success);
    assert_eq!(r.performance_gain, 0);
    assert_eq!(r.error_message.as_deref(), Some("benchmark failed"));
}

#[test]
fn profiling_reports_the_mean_of_the_three_scores() {
    let r = profile_system_performance(30, 31);
    assert!(r.success);
    // (75 + 80 + 85) / 3 = 80
    assert_eq!(r.performance_gain, 8000);
    assert_eq!(r.memory_saved_mb, 0);
}

#[test]
fn memory_statistics_score_usage_against_the_cap() {
    let mut ctx = GpuContext::new();
    assert!(offload(&mut ctx, vec![0u8; 3 * 1024 * 1024], 1, 0));
    let stats = get_memory_statistics(&ctx, 200, 777);
    assert_eq!(stats.app_memory_mb, 200);
    assert_eq!(stats.gpu_memory_mb, SIMULATED_GPU_MEMORY_MB);
    assert_eq!(stats.cpu_memory_mb, 0);
    assert_eq!(stats.total_offloaded_mb, 3);
    // 100 / 200 = 50.00 points
    assert_eq!(stats.optimization_score, 5000);
    assert_eq!(stats.last_optimization, 777);
    assert_eq!(stats.active_offloads, 1);

    let stats = get_memory_statistics(&ctx, 50, 0);
    assert_eq!(stats.optimization_score, 10000); // capped at 100.00
    let stats = get_memory_statistics(&ctx, 0, 0);
    assert_eq!(stats.optimization_score, 10000); // degenerate usage
    let stats = get_memory_statistics(&ctx, 1000, 0);
    assert_eq!(stats.cpu_memory_mb, 1000 - SIMULATED_GPU_MEMORY_MB);
}

#[test]
fn monitor_tick_optimizes_only_above_the_cap() {
    let mut ctx = GpuContext::new();
    initialize_gpu_system(&mut ctx);
    assert!(monitor_should_continue(&ctx));

    assert!(!monitor_tick(&mut ctx, 100, 95, 1));
    assert_eq!(active_offload_count(&ctx), 0);

    assert!(monitor_tick(&mut ctx, 150, 120, 2));
    assert_eq!(active_offload_count(&ctx), 1);
    assert_eq!(get_total_offloaded_memory(&ctx), OFFLOAD_BLOCK_BYTES as u64);
}

#[test]
fn automatic_optimization_counts_only_measured_drops() {
    let mut ctx = GpuContext::new();
    assert!(perform_automatic_memory_optimization(&mut ctx, 150, 120, 1));
    assert!(perform_automatic_memory_optimization(&mut ctx, 120, 130, 2));
    // the second pass saw no drop, so only one pass was counted; the
    // count is observable through the next previous-value report
    assert_eq!(increment_optimization_count(&mut ctx), 1);
}
