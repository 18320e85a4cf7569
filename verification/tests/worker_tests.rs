use resource_governor::worker::{
    add_worker_task, execute_cpu_task, get_pending_task_count, get_worker_stats,
    get_worker_task_status, initialize_worker_pool, pool_size_for_cpus, reset_worker_pool,
    TaskKind, TaskStatus, WorkerPool, WorkerTask, MAX_COMPLETED_TASKS, MIN_WORKERS,
};

fn submit(pool: &mut WorkerPool, id: &str, kind: TaskKind, now_ms: u64) {
    assert!(add_worker_task(
        pool,
        id.to_string(),
        kind,
        "payload".to_string(),
        None,
        now_ms,
    ));
}

#[test]
fn submission_dispatches_immediately_and_archives_the_result() {
    let mut pool = WorkerPool::new(2, 0);
    submit(&mut pool, "t1", TaskKind::CpuIntensive, 10);

    let task = get_worker_task_status(&pool, &"t1".to_string()).unwrap();
    assert_eq!(task.status, TaskStatus::Completed);
    assert_eq!(task.created_at, 10);
    assert_eq!(task.started_at, Some(10));
    assert_eq!(task.completed_at, Some(10));
    assert_eq!(task.result.as_deref(), Some("CPU intensive task completed"));
    assert_eq!(task.error, None);
    assert_eq!(task.priority, 5); // the default priority
    assert_eq!(get_pending_task_count(&pool), 0);
}

#[test]
fn each_kind_gets_its_own_result_text() {
    let mut pool = WorkerPool::new(4, 0);
    submit(&mut pool, "a", TaskKind::CpuIntensive, 1);
    submit(&mut pool, "b", TaskKind::IoOperation, 2);
    submit(&mut pool, "c", TaskKind::DataProcessing, 3);
    submit(&mut pool, "d", TaskKind::Generic, 4);
    let text = |id: &str| {
        get_worker_task_status(&pool, &id.to_string())
            .unwrap()
            .result
            .unwrap()
    };
    assert_eq!(text("a"), "CPU intensive task completed");
    assert_eq!(text("b"), "IO operation completed");
    assert_eq!(text("c"), "Data processing completed");
    assert_eq!(text("d"), "Generic task completed");
}

#[test]
fn unknown_task_id_is_not_found() {
    let mut pool = WorkerPool::new(1, 0);
    submit(&mut pool, "known", TaskKind::Generic, 1);
    assert!(get_worker_task_status(&pool, &"unknown".to_string()).is_none());
}

#[test]
fn dispatch_is_strictly_fifo() {
    // one idle worker, one pending slot: T1 runs before T2
    let mut pool = WorkerPool::new(1, 0);
    submit(&mut pool, "T1", TaskKind::Generic, 100);
    submit(&mut pool, "T2", TaskKind::Generic, 200);

    let t1 = get_worker_task_status(&pool, &"T1".to_string()).unwrap();
    let t2 = get_worker_task_status(&pool, &"T2".to_string()).unwrap();
    assert_eq!(t1.status, TaskStatus::Completed);
    assert_eq!(t2.status, TaskStatus::Completed);
    assert!(t1.completed_at.unwrap() < t2.completed_at.unwrap());
}

#[test]
fn five_tasks_on_two_workers_all_complete() {
    let mut pool = WorkerPool::new(2, 0);
    for i in 0..5u64 {
        submit(&mut pool, &format!("task{i}"), TaskKind::DataProcessing, i + 1);
    }
    let stats = get_worker_stats(&pool, 50);
    assert_eq!(stats.completed_tasks, 5);
    assert_eq!(stats.pending_tasks, 0);
    assert_eq!(stats.total_workers, 2);
    assert_eq!(stats.active_workers, 0);
    assert_eq!(stats.idle_workers, 2);
    assert_eq!(stats.failed_tasks, 0);
    assert_eq!(stats.total_processed, 5);
    assert_eq!(stats.queue_size, 0);
    assert_eq!(stats.uptime_ms, 50);
    // every archived task started no later than it completed
    for i in 0..5u64 {
        let t = get_worker_task_status(&pool, &format!("task{i}")).unwrap();
        assert!(t.started_at.unwrap() <= t.completed_at.unwrap());
    }
}

#[test]
fn average_duration_is_the_truncated_mean_over_timed_tasks() {
    // synchronous dispatch stamps equal timestamps, so durations are 0
    let mut pool = WorkerPool::new(2, 0);
    submit(&mut pool, "x", TaskKind::Generic, 5);
    let stats = get_worker_stats(&pool, 5);
    assert_eq!(stats.average_task_duration_ms, 0);

    // an empty archive skips the division entirely
    let empty = WorkerPool::new(2, 0);
    let stats = get_worker_stats(&empty, 0);
    assert_eq!(stats.average_task_duration_ms, 0);
    assert_eq!(stats.completed_tasks, 0);
}

#[test]
fn archive_evicts_the_oldest_past_one_thousand() {
    let mut pool = WorkerPool::new(1, 0);
    for i in 0..(MAX_COMPLETED_TASKS as u64 + 1) {
        submit(&mut pool, &format!("task{i}"), TaskKind::Generic, i);
    }
    let stats = get_worker_stats(&pool, 2000);
    assert_eq!(stats.completed_tasks as usize, MAX_COMPLETED_TASKS);
    assert_eq!(stats.total_processed as usize, MAX_COMPLETED_TASKS + 1);
    // the very first task was evicted, the rest are still found
    assert!(get_worker_task_status(&pool, &"task0".to_string()).is_none());
    assert!(get_worker_task_status(&pool, &"task1".to_string()).is_some());
    let last = format!("task{}", MAX_COMPLETED_TASKS);
    assert!(get_worker_task_status(&pool, &last).is_some());
}

#[test]
fn reset_keeps_the_workers_and_clears_everything_else() {
    let mut pool = WorkerPool::new(3, 0);
    for i in 0..7u64 {
        submit(&mut pool, &format!("job{i}"), TaskKind::IoOperation, i);
    }
    assert!(reset_worker_pool(&mut pool, 500));
    let stats = get_worker_stats(&pool, 600);
    assert_eq!(stats.total_workers, 3);
    assert_eq!(stats.active_workers, 0);
    assert_eq!(stats.pending_tasks, 0);
    assert_eq!(stats.completed_tasks, 0);
    assert_eq!(stats.failed_tasks, 0);
    assert_eq!(stats.total_processed, 0);
    assert_eq!(stats.uptime_ms, 100);
    assert!(get_worker_task_status(&pool, &"job0".to_string()).is_none());
}

#[test]
fn explicit_priority_is_kept_even_though_dispatch_ignores_it() {
    let mut pool = WorkerPool::new(1, 0);
    assert!(add_worker_task(
        &mut pool,
        "p".to_string(),
        TaskKind::Generic,
        "".to_string(),
        Some(200),
        1,
    ));
    let t = get_worker_task_status(&pool, &"p".to_string()).unwrap();
    assert_eq!(t.priority, 200);
}

#[test]
fn zero_worker_pool_leaves_tasks_pending() {
    let mut pool = WorkerPool::new(0, 0);
    submit(&mut pool, "stuck", TaskKind::Generic, 1);
    assert_eq!(get_pending_task_count(&pool), 1);
    let t = get_worker_task_status(&pool, &"stuck".to_string()).unwrap();
    assert_eq!(t.status, TaskStatus::Pending);
    assert_eq!(t.started_at, None);
}

#[test]
fn default_pool_is_sized_from_the_machine() {
    let pool = initialize_worker_pool(0);
    let stats = get_worker_stats(&pool, 0);
    assert!(stats.total_workers as usize >= MIN_WORKERS);
    assert_eq!(stats.total_workers % 2, 0); // twice the CPU count
}

#[test]
fn pool_sizing_doubles_cpus_with_a_floor_of_four() {
    assert_eq!(pool_size_for_cpus(1), 4);
    assert_eq!(pool_size_for_cpus(2), 4);
    assert_eq!(pool_size_for_cpus(3), 6);
    assert_eq!(pool_size_for_cpus(16), 32);
    assert_eq!(pool_size_for_cpus(usize::MAX), u32::MAX as usize);
}

#[test]
fn cpu_task_returns_the_wrapped_square_sum() {
    assert_eq!(execute_cpu_task(), 333332833333500000);
}

#[test]
fn injected_failure_is_archived_and_counted() {
    // the default dispatch flow has no failure path; a failed task can
    // only be handed in from outside, on behalf of a worker slot
    let mut pool = WorkerPool::new(2, 0);
    let failed = WorkerTask {
        id: "broken".to_string(),
        task_type: TaskKind::IoOperation,
        payload: "".to_string(),
        priority: 5,
        created_at: 1,
        started_at: Some(2),
        completed_at: Some(3),
        status: TaskStatus::Failed,
        result: None,
        error: Some("device unavailable".to_string()),
    };
    pool.complete_task(0, failed, 4);

    let stats = get_worker_stats(&pool, 10);
    assert_eq!(stats.completed_tasks, 1);
    assert_eq!(stats.failed_tasks, 1);
    assert_eq!(stats.total_processed, 1);
    let archived = get_worker_task_status(&pool, &"broken".to_string()).unwrap();
    assert_eq!(archived.status, TaskStatus::Failed);
    assert_eq!(archived.error.as_deref(), Some("device unavailable"));
    // other queued work is unaffected
    submit(&mut pool, "next", TaskKind::Generic, 5);
    let stats = get_worker_stats(&pool, 10);
    assert_eq!(stats.completed_tasks, 2);
    assert_eq!(stats.failed_tasks, 1);
}
