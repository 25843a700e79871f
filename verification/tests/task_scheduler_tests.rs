use nuclaw::db::TaskStore;
use nuclaw::task_scheduler::apply_run_result;
use nuclaw::task_scheduler::calculate_next_run;
use nuclaw::task_scheduler::calculate_next_run_string;
use nuclaw::task_scheduler::determine_task_status;
use nuclaw::task_scheduler::format_duration;
use nuclaw::task_scheduler::get_next_run_time;
use nuclaw::task_scheduler::is_task_due;
use nuclaw::task_scheduler::is_valid_schedule_type;
use nuclaw::task_scheduler::parse_cron_expression;
use nuclaw::task_scheduler::scheduled_session_id;
use nuclaw::task_scheduler::should_dispatch;
use nuclaw::task_scheduler::build_scheduled_input;
use nuclaw::task_scheduler::RunOutcome;
use nuclaw::task_scheduler::SchedulerPhase;
use nuclaw::task_scheduler::TaskScheduler;
use nuclaw::types::ContainerOutput;
use nuclaw::types::ScheduledTask;

fn sample_task(schedule_type: &str, schedule_value: &str) -> ScheduledTask {
    ScheduledTask {
        id: "test".to_string(),
        group_folder: "test".to_string(),
        chat_jid: "test".to_string(),
        prompt: "test".to_string(),
        schedule_type: schedule_type.to_string(),
        schedule_value: schedule_value.to_string(),
        next_run: None,
        last_run: None,
        last_result: None,
        status: "active".to_string(),
        created_at: chrono::Utc::now().to_rfc3339(),
        context_mode: "isolated".to_string(),
    }
}

fn now_ms() -> i64 {
    chrono::Utc::now().timestamp_millis()
}

#[test]
fn test_parse_cron_expression() {
    // Use 6-field format with seconds (cron crate standard)
    let result = parse_cron_expression("0 0 9 * * *");
    assert!(result.is_ok(), "Expected valid cron expression");
}

#[test]
fn test_parse_cron_expression_with_seconds() {
    let result = parse_cron_expression("0 0 0 9 * * *");
    assert!(result.is_ok());
}

#[test]
fn test_parse_invalid_cron() {
    let result = parse_cron_expression("invalid cron");
    assert!(result.is_err());
    let msg = result.unwrap_err().message();
    assert!(msg.contains("Scheduler error"));
    assert!(msg.contains("Invalid cron expression"));
}

#[test]
fn test_parse_empty_cron() {
    let result = parse_cron_expression("");
    assert!(result.is_err());
}

#[test]
fn test_get_next_run_time() {
    let schedule = parse_cron_expression("0 0 9 * * *").unwrap();
    let now = now_ms();
    let next = get_next_run_time(&schedule, now);
    // Next run should be in the future
    assert!(next >= now);
}

#[test]
fn test_calculate_interval_next_run() {
    let task = sample_task("interval", "3600000");
    let now = now_ms();
    let next = calculate_next_run(&task, now);
    assert!(next.is_some());
    // Should be approximately 1 hour from now
    let diff = (next.unwrap() - now) / 1000;
    // Allow some tolerance
    assert!(diff >= 3590 && diff <= 3610);
}

#[test]
fn test_calculate_interval_next_run_invalid() {
    let task = sample_task("interval", "not_a_number");
    let next = calculate_next_run(&task, now_ms());
    assert!(next.is_none());
}

#[test]
fn test_calculate_interval_next_run_zero() {
    let task = sample_task("interval", "0");
    let now = now_ms();
    let next = calculate_next_run(&task, now);
    assert!(next.is_some());
    // Should be essentially now
    let diff = (next.unwrap() - now) / 1000;
    assert!(diff <= 1);
}

#[test]
fn test_calculate_next_cron_run() {
    let task = sample_task("cron", "0 0 9 * * *");
    let next = calculate_next_run(&task, now_ms());
    assert!(next.is_some());
}

#[test]
fn test_calculate_next_run_once() {
    let task = sample_task("once", "2025-01-01T00:00:00Z");
    let next = calculate_next_run(&task, now_ms());
    assert!(next.is_none());
}

#[test]
fn test_calculate_next_run_invalid_type() {
    let task = sample_task("unknown", "value");
    let next = calculate_next_run(&task, now_ms());
    assert!(next.is_none());
}

#[test]
fn test_cron_next_run_hits_nine_o_clock() {
    let fixed = chrono::DateTime::parse_from_rfc3339("2025-01-15T12:00:00+00:00")
        .unwrap()
        .timestamp_millis();
    let task = sample_task("cron", "0 0 9 * * *");
    let next = calculate_next_run(&task, fixed).unwrap();
    assert!(next > fixed);
    let dt = chrono::DateTime::<chrono::Utc>::from_timestamp_millis(next).unwrap();
    assert_eq!(dt.to_rfc3339(), "2025-01-16T09:00:00+00:00");
}

#[test]
fn test_interval_next_run_exact() {
    let fixed = chrono::DateTime::parse_from_rfc3339("2025-01-15T12:00:00+00:00")
        .unwrap()
        .timestamp_millis();
    let task = sample_task("interval", "3600000");
    assert_eq!(calculate_next_run(&task, fixed), Some(fixed + 3_600_000));
    let rendered = calculate_next_run_string(&task, fixed).unwrap();
    assert_eq!(rendered, "2025-01-15T13:00:00+00:00");
}

#[test]
fn test_task_scheduler_new() {
    let scheduler = TaskScheduler::new(60_000, 600_000, 4);
    assert_eq!(scheduler.poll_interval_ms, 60_000);
    assert_eq!(scheduler.task_timeout_ms, 600_000);
    assert_eq!(scheduler.max_concurrent_tasks, 4);
    assert_eq!(scheduler.in_flight, 0);
    assert_eq!(scheduler.phase, SchedulerPhase::Idle);
}

#[test]
fn test_scheduler_clone() {
    let scheduler = TaskScheduler::new(60_000, 600_000, 4);
    let _cloned = scheduler.clone();
}

#[test]
fn test_scheduler_phases() {
    let mut s = TaskScheduler::new(1000, 1000, 2);
    assert!(s.on_tick());
    assert_eq!(s.phase, SchedulerPhase::Polling);
    assert!(!s.on_tick());
    s.on_due_tasks_loaded(0);
    assert_eq!(s.phase, SchedulerPhase::Idle);
    assert!(s.on_tick());
    s.on_due_tasks_loaded(3);
    assert_eq!(s.phase, SchedulerPhase::Dispatching);
    s.on_batch_drained();
    assert_eq!(s.phase, SchedulerPhase::Idle);
    s.on_shutdown();
    assert_eq!(s.phase, SchedulerPhase::ShuttingDown);
    assert!(!s.on_tick());
}

#[test]
fn test_concurrency_ceiling_never_exceeded() {
    let mut s = TaskScheduler::new(1000, 1000, 2);
    let mut max_seen: usize = 0;
    let mut dispatched: usize = 0;
    // Five simultaneously-due tasks against a ceiling of two: whenever no
    // slot is free, one in-flight execution finishes first.
    while dispatched < 5 {
        if s.try_acquire_slot() {
            dispatched += 1;
            if s.in_flight > max_seen {
                max_seen = s.in_flight;
            }
        } else {
            s.release_slot();
        }
    }
    while s.in_flight > 0 {
        s.release_slot();
    }
    assert!(max_seen <= 2);
    assert_eq!(dispatched, 5);
}

#[test]
fn test_is_task_due_active_no_next_run() {
    let task = sample_task("interval", "3600000");
    let now = chrono::Utc::now().to_rfc3339();
    assert!(is_task_due(&task, &now));
}

#[test]
fn test_is_task_due_active_with_past_next_run() {
    let now = chrono::Utc::now();
    let past = (now - chrono::Duration::hours(1)).to_rfc3339();
    let mut task = sample_task("interval", "3600000");
    task.next_run = Some(past);
    let now_str = now.to_rfc3339();
    assert!(is_task_due(&task, &now_str));
}

#[test]
fn test_is_task_due_active_with_future_next_run() {
    let now = chrono::Utc::now();
    let future = (now + chrono::Duration::hours(1)).to_rfc3339();
    let mut task = sample_task("interval", "3600000");
    task.next_run = Some(future);
    let now_str = now.to_rfc3339();
    assert!(!is_task_due(&task, &now_str));
}

#[test]
fn test_is_task_due_inactive() {
    let now = chrono::Utc::now().to_rfc3339();
    let mut task = sample_task("interval", "3600000");
    task.status = "paused".to_string();
    assert!(!is_task_due(&task, &now));
}

#[test]
fn test_determine_task_status_success_once() {
    assert_eq!(determine_task_status(true, true), "completed");
}

#[test]
fn test_determine_task_status_success_recurring() {
    assert_eq!(determine_task_status(true, false), "active");
}

#[test]
fn test_determine_task_status_failed() {
    assert_eq!(determine_task_status(false, true), "failed");
    assert_eq!(determine_task_status(false, false), "failed");
}

#[test]
fn test_is_valid_schedule_type() {
    assert!(is_valid_schedule_type("cron"));
    assert!(is_valid_schedule_type("interval"));
    assert!(is_valid_schedule_type("once"));
    assert!(!is_valid_schedule_type("invalid"));
    assert!(!is_valid_schedule_type(""));
}

#[test]
fn test_format_duration() {
    assert_eq!(format_duration(500), "500ms");
    assert_eq!(format_duration(1000), "1s");
    assert_eq!(format_duration(30000), "30s");
    assert_eq!(format_duration(60000), "1m");
    assert_eq!(format_duration(120000), "2m");
}

#[test]
fn test_should_dispatch_recheck() {
    let active = sample_task("interval", "1000");
    assert!(should_dispatch(&Some(active)));
    let mut paused = sample_task("interval", "1000");
    paused.status = "paused".to_string();
    assert!(!should_dispatch(&Some(paused)));
    assert!(!should_dispatch(&None));
}

#[test]
fn test_paused_task_skipped_without_trace() {
    let mut store = TaskStore::new();
    let mut task = sample_task("interval", "3600000");
    task.id = "t1".to_string();
    store.add_task(task);
    // Selected as due, then paused by a management action before dispatch.
    let due = store.list_due_tasks(&chrono::Utc::now().to_rfc3339());
    assert_eq!(due.len(), 1);
    let mut paused = due[0].clone();
    paused.status = "paused".to_string();
    let mut store2 = TaskStore::new();
    store2.add_task(paused);
    let refetched = store2.get_task("t1");
    assert!(!should_dispatch(&refetched));
    // Not dispatched: no run is logged and the row is untouched.
    assert_eq!(store2.logs().len(), 0);
    assert_eq!(store2.tasks()[0].status, "paused");
    assert_eq!(store2.tasks()[0].last_run, None);
}

#[test]
fn test_once_task_completes_after_success() {
    let mut store = TaskStore::new();
    let mut task = sample_task("once", "2025-01-01T00:00:00Z");
    task.id = "t_once".to_string();
    task.next_run = Some("2025-01-01T00:00:00Z".to_string());
    store.add_task(task.clone());
    let output = ContainerOutput {
        status: "success".to_string(),
        result: Some("done".to_string()),
        new_session_id: None,
        error: None,
    };
    let now = "2025-01-02T00:00:00+00:00";
    apply_run_result(&mut store, &task, RunOutcome::Completed(output), now, 1_735_776_000_000, 42);
    let row = store.get_task("t_once").unwrap();
    assert_eq!(row.status, "completed");
    assert_eq!(row.next_run, None);
    assert_eq!(row.last_run, Some(now.to_string()));
    assert_eq!(row.last_result, Some("done".to_string()));
    assert_eq!(store.logs().len(), 1);
    assert_eq!(store.logs()[0].status, "success");
    assert_eq!(store.logs()[0].task_id, "t_once");
    assert_eq!(store.logs()[0].duration_ms, 42);
}

#[test]
fn test_recurring_task_reschedules_after_success() {
    let mut store = TaskStore::new();
    let mut task = sample_task("interval", "3600000");
    task.id = "t_int".to_string();
    store.add_task(task.clone());
    let output = ContainerOutput {
        status: "success".to_string(),
        result: Some("ok".to_string()),
        new_session_id: None,
        error: None,
    };
    let fixed = chrono::DateTime::parse_from_rfc3339("2025-01-15T12:00:00+00:00")
        .unwrap()
        .timestamp_millis();
    apply_run_result(&mut store, &task, RunOutcome::Completed(output), "2025-01-15T12:00:00+00:00", fixed, 5);
    let row = store.get_task("t_int").unwrap();
    assert_eq!(row.status, "active");
    assert_eq!(row.next_run, Some("2025-01-15T13:00:00+00:00".to_string()));
}

#[test]
fn test_failed_task_marked_failed() {
    let mut store = TaskStore::new();
    let mut task = sample_task("interval", "3600000");
    task.id = "t_err".to_string();
    task.next_run = Some("2025-01-01T00:00:00+00:00".to_string());
    store.add_task(task.clone());
    // The subprocess ran but came back with an error-shaped result.
    let output = ContainerOutput {
        status: "error".to_string(),
        result: None,
        new_session_id: None,
        error: Some("agent failed".to_string()),
    };
    apply_run_result(
        &mut store,
        &task,
        RunOutcome::Completed(output),
        "2025-01-02T00:00:00+00:00",
        1_735_776_000_000,
        7,
    );
    let row = store.get_task("t_err").unwrap();
    assert_eq!(row.status, "failed");
    // Scheduling is left alone on failure.
    assert_eq!(row.next_run, Some("2025-01-01T00:00:00+00:00".to_string()));
    assert_eq!(row.last_result, Some("agent failed".to_string()));
    assert_eq!(store.logs()[0].status, "error");
}

#[test]
fn test_error_shaped_result_not_rescheduled() {
    let mut store = TaskStore::new();
    let mut task = sample_task("interval", "3600000");
    task.id = "t_shape".to_string();
    store.add_task(task.clone());
    // Exit was clean, but the structured record reports an error.
    let output = ContainerOutput {
        status: "error".to_string(),
        result: Some("partial".to_string()),
        new_session_id: None,
        error: Some("tool broke".to_string()),
    };
    apply_run_result(
        &mut store,
        &task,
        RunOutcome::Completed(output),
        "2025-01-02T00:00:00+00:00",
        1_735_776_000_000,
        9,
    );
    let row = store.get_task("t_shape").unwrap();
    assert_eq!(row.status, "failed");
    assert_eq!(row.next_run, None);
    assert_eq!(store.logs()[0].status, "error");
    assert_eq!(row.last_result, Some("tool broke".to_string()));
}

#[test]
fn test_timeout_logged_as_timeout() {
    let mut store = TaskStore::new();
    let mut task = sample_task("cron", "0 0 9 * * *");
    task.id = "t_slow".to_string();
    store.add_task(task.clone());
    apply_run_result(
        &mut store,
        &task,
        RunOutcome::TimedOut,
        "2025-01-02T00:00:00+00:00",
        1_735_776_000_000,
        600_000,
    );
    let row = store.get_task("t_slow").unwrap();
    assert_eq!(row.status, "failed");
    assert_eq!(store.logs()[0].status, "timeout");
    assert_eq!(row.last_result, Some("Task execution timed out".to_string()));
}

#[test]
fn test_scheduled_input_shape() {
    let mut task = sample_task("interval", "60000");
    task.id = "t42".to_string();
    assert_eq!(scheduled_session_id("t42"), "scheduled_t42");
    let input = build_scheduled_input(&task);
    assert_eq!(input.session_id, Some("scheduled_t42".to_string()));
    assert_eq!(input.prompt, "test");
    assert!(!input.is_main);
    assert!(input.is_scheduled_task);
}
