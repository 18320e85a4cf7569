use resource_governor::gpu::{
    add_offloaded_memory, active_offload_count, cleanup_gpu_system, cleanup_memory_monitoring,
    cleanup_old_offloads, compress_and_offload_memory, get_offload_statistics,
    get_total_offloaded_memory, increment_optimization_count, initialize_gpu_system,
    initialize_memory_monitoring, monitor_is_initialized, monitoring_is_active, offload,
    reset_offloaded_memory, GpuContext, OFFLOAD_BLOCK_BYTES,
};

#[test]
fn counters_add_reset_and_report_previous_values() {
    let mut ctx = GpuContext::new();
    assert_eq!(get_total_offloaded_memory(&ctx), 0);
    assert_eq!(add_offloaded_memory(&mut ctx, 100), 0);
    assert_eq!(add_offloaded_memory(&mut ctx, 23), 100);
    assert_eq!(get_total_offloaded_memory(&ctx), 123);
    reset_offloaded_memory(&mut ctx);
    assert_eq!(get_total_offloaded_memory(&ctx), 0);
    assert_eq!(increment_optimization_count(&mut ctx), 0);
    assert_eq!(increment_optimization_count(&mut ctx), 1);
}

#[test]
fn offload_tracks_payload_sizes_in_the_global_counter() {
    let mut ctx = GpuContext::new();
    assert!(offload(&mut ctx, vec![7u8; 1500], 10, 0));
    assert!(offload(&mut ctx, vec![9u8; 500], 200, 1));
    assert_eq!(get_total_offloaded_memory(&ctx), 2000);
    assert_eq!(active_offload_count(&ctx), 2);
    let (count, total_mb, avg_access) = get_offload_statistics(&ctx);
    assert_eq!(count, 2);
    assert_eq!(total_mb, 0); // 2000 bytes is below a megabyte
    assert_eq!(avg_access, 0);
}

#[test]
fn compress_and_offload_moves_a_ten_megabyte_block() {
    let mut ctx = GpuContext::new();
    assert!(compress_and_offload_memory(&mut ctx, 0));
    assert_eq!(get_total_offloaded_memory(&ctx), OFFLOAD_BLOCK_BYTES as u64);
    let (count, total_mb, _) = get_offload_statistics(&ctx);
    assert_eq!(count, 1);
    assert_eq!(total_mb, 10);
}

#[test]
fn eviction_removes_only_entries_past_the_age_bound() {
    let mut ctx = GpuContext::new();
    assert!(offload(&mut ctx, vec![0u8; 300], 1, 0));
    assert!(offload(&mut ctx, vec![0u8; 400], 1, 60_000));
    assert!(offload(&mut ctx, vec![0u8; 500], 1, 100_000));

    // at t = 100 s the entries are 100 s, 40 s and 0 s old
    let removed = cleanup_old_offloads(&mut ctx, 50, 100_000);
    assert_eq!(removed, 1);
    assert_eq!(active_offload_count(&ctx), 2);
    assert_eq!(get_total_offloaded_memory(&ctx), 900);

    // an age bound of zero still keeps entries created this second
    let removed = cleanup_old_offloads(&mut ctx, 0, 100_500);
    assert_eq!(removed, 1);
    assert_eq!(get_total_offloaded_memory(&ctx), 500);
}

#[test]
fn counter_equals_live_sizes_across_random_interleavings() {
    let mut ctx = GpuContext::new();
    let mut live: Vec<(u64, u64)> = Vec::new(); // (created_at, size)
    let mut seed: u64 = 0x2545_f491_4f6c_dd1d;
    let mut now: u64 = 0;
    for _ in 0..200 {
        seed = seed.wrapping_mul(6364136223846793005).wrapping_add(1442695040888963407);
        now += (seed >> 60) * 250;
        if seed % 3 == 0 && !live.is_empty() {
            let max_age = seed >> 62; // 0 ..= 3 seconds
            let removed = cleanup_old_offloads(&mut ctx, max_age, now);
            let before = live.len();
            live.retain(|(created, _)| {
                !(*created < now && (now - created) / 1000 > max_age)
            });
            assert_eq!(removed, before - live.len());
        } else {
            let size = seed % 2048;
            assert!(offload(&mut ctx, vec![0u8; size as usize], 1, now));
            live.push((now, size));
        }
        let expected: u64 = live.iter().map(|(_, s)| s).sum();
        assert_eq!(get_total_offloaded_memory(&ctx), expected);
        assert_eq!(active_offload_count(&ctx), live.len());
    }
}

#[test]
fn starting_the_monitor_twice_equals_starting_it_once() {
    let mut ctx = GpuContext::new();
    initialize_memory_monitoring(&mut ctx);
    let after_once = (
        monitor_is_initialized(&ctx),
        monitoring_is_active(&ctx),
        get_total_offloaded_memory(&ctx),
        active_offload_count(&ctx),
    );
    initialize_memory_monitoring(&mut ctx);
    let after_twice = (
        monitor_is_initialized(&ctx),
        monitoring_is_active(&ctx),
        get_total_offloaded_memory(&ctx),
        active_offload_count(&ctx),
    );
    assert_eq!(after_once, after_twice);
    assert!(after_once.0 && after_once.1);
}

#[test]
fn stopping_the_monitor_twice_is_safe_and_the_second_stop_changes_nothing() {
    let mut ctx = GpuContext::new();
    initialize_gpu_system(&mut ctx);
    assert!(offload(&mut ctx, vec![0u8; 64], 1, 0));
    cleanup_memory_monitoring(&mut ctx);
    assert!(!monitor_is_initialized(&ctx));
    assert!(!monitoring_is_active(&ctx));
    assert_eq!(get_total_offloaded_memory(&ctx), 0);
    assert_eq!(active_offload_count(&ctx), 0);
    cleanup_memory_monitoring(&mut ctx);
    assert!(!monitor_is_initialized(&ctx));
    assert!(!monitoring_is_active(&ctx));
    assert_eq!(get_total_offloaded_memory(&ctx), 0);
    assert_eq!(active_offload_count(&ctx), 0);
}

#[test]
fn teardown_clears_the_cache_and_zeroes_the_counter() {
    let mut ctx = GpuContext::new();
    initialize_gpu_system(&mut ctx);
    assert!(compress_and_offload_memory(&mut ctx, 5));
    assert!(get_total_offloaded_memory(&ctx) > 0);
    cleanup_gpu_system(&mut ctx);
    assert_eq!(get_total_offloaded_memory(&ctx), 0);
    assert_eq!(active_offload_count(&ctx), 0);
}
