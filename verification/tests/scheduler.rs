use a2a_rs::runtime::scheduler::{PriorityClass, ScheduledTask, Scheduler, SchedulerError};

#[test]
fn test_scheduler_deterministic_ordering() {
    let mut scheduler = Scheduler::new(5);

    // Submit tasks in random order
    scheduler
        .submit(ScheduledTask::new(
            "task-3".to_string(),
            "station-a".to_string(),
            1,
            PriorityClass::Normal,
        ))
        .unwrap();
    scheduler
        .submit(ScheduledTask::new(
            "task-1".to_string(),
            "station-a".to_string(),
            0,
            PriorityClass::High,
        ))
        .unwrap();
    scheduler
        .submit(ScheduledTask::new(
            "task-2".to_string(),
            "station-a".to_string(),
            0,
            PriorityClass::Normal,
        ))
        .unwrap();

    // Should be sorted by (epoch, priority, station_id, task_id)
    let t1 = scheduler.next().unwrap();
    assert_eq!(t1.task_id, "task-1"); // epoch=0, priority=High

    let t2 = scheduler.next().unwrap();
    assert_eq!(t2.task_id, "task-2"); // epoch=0, priority=Normal

    let t3 = scheduler.next().unwrap();
    assert_eq!(t3.task_id, "task-3"); // epoch=1
}

#[test]
fn test_wip_limits() {
    let mut scheduler = Scheduler::new(2);

    // Submit 3 tasks to same station
    scheduler
        .submit(ScheduledTask::new(
            "task-1".to_string(),
            "station-a".to_string(),
            0,
            PriorityClass::Normal,
        ))
        .unwrap();
    scheduler
        .submit(ScheduledTask::new(
            "task-2".to_string(),
            "station-a".to_string(),
            0,
            PriorityClass::Normal,
        ))
        .unwrap();
    scheduler
        .submit(ScheduledTask::new(
            "task-3".to_string(),
            "station-a".to_string(),
            0,
            PriorityClass::Normal,
        ))
        .unwrap();

    // Should get first two tasks
    let t1 = scheduler.next().unwrap();
    let t2 = scheduler.next().unwrap();

    // Third task should be blocked by WIP limit
    assert!(scheduler.next().is_none());

    // Complete one task
    scheduler.complete(&t1.task_id, &t1.station_id).unwrap();

    // Now third task should be available
    let t3 = scheduler.next().unwrap();
    assert_eq!(t3.task_id, "task-3");
}

#[test]
fn test_fair_scheduling() {
    let mut scheduler = Scheduler::new(5);

    // Submit tasks to different stations with same priority
    scheduler
        .submit(ScheduledTask::new(
            "task-a1".to_string(),
            "station-a".to_string(),
            0,
            PriorityClass::Normal,
        ))
        .unwrap();
    scheduler
        .submit(ScheduledTask::new(
            "task-b1".to_string(),
            "station-b".to_string(),
            0,
            PriorityClass::Normal,
        ))
        .unwrap();
    scheduler
        .submit(ScheduledTask::new(
            "task-a2".to_string(),
            "station-a".to_string(),
            0,
            PriorityClass::Normal,
        ))
        .unwrap();

    // First task (alphabetically station-a)
    let t1 = scheduler.next().unwrap();
    assert_eq!(t1.station_id, "station-a");

    // Second task should prefer different station (station-b)
    let t2 = scheduler.next().unwrap();
    assert_eq!(t2.station_id, "station-b");

    // Third task back to station-a
    let t3 = scheduler.next().unwrap();
    assert_eq!(t3.station_id, "station-a");
}

#[test]
fn test_priority_ordering() {
    let mut scheduler = Scheduler::new(5);

    scheduler
        .submit(ScheduledTask::new(
            "low".to_string(),
            "station-a".to_string(),
            0,
            PriorityClass::Low,
        ))
        .unwrap();
    scheduler
        .submit(ScheduledTask::new(
            "critical".to_string(),
            "station-a".to_string(),
            0,
            PriorityClass::Critical,
        ))
        .unwrap();
    scheduler
        .submit(ScheduledTask::new(
            "normal".to_string(),
            "station-a".to_string(),
            0,
            PriorityClass::Normal,
        ))
        .unwrap();

    // Should execute in priority order
    assert_eq!(scheduler.next().unwrap().task_id, "critical");
    assert_eq!(scheduler.next().unwrap().task_id, "normal");
    assert_eq!(scheduler.next().unwrap().task_id, "low");
}

#[test]
fn test_epoch_ordering() {
    let mut scheduler = Scheduler::new(5);

    scheduler
        .submit(ScheduledTask::new(
            "epoch-2".to_string(),
            "station-a".to_string(),
            2,
            PriorityClass::Normal,
        ))
        .unwrap();
    scheduler
        .submit(ScheduledTask::new(
            "epoch-0".to_string(),
            "station-a".to_string(),
            0,
            PriorityClass::Normal,
        ))
        .unwrap();
    scheduler
        .submit(ScheduledTask::new(
            "epoch-1".to_string(),
            "station-a".to_string(),
            1,
            PriorityClass::Normal,
        ))
        .unwrap();

    // Should execute in epoch order
    assert_eq!(scheduler.next().unwrap().task_id, "epoch-0");
    assert_eq!(scheduler.next().unwrap().task_id, "epoch-1");
    assert_eq!(scheduler.next().unwrap().task_id, "epoch-2");
}

#[test]
fn test_cancel_pending_task() {
    let mut scheduler = Scheduler::new(5);

    scheduler
        .submit(ScheduledTask::new(
            "task-1".to_string(),
            "station-a".to_string(),
            0,
            PriorityClass::Normal,
        ))
        .unwrap();

    assert_eq!(scheduler.pending_count(), 1);

    let cancelled = scheduler.cancel("task-1").unwrap();
    assert_eq!(cancelled.task_id, "task-1");
    assert_eq!(scheduler.pending_count(), 0);
}

#[test]
fn test_duplicate_task_error() {
    let mut scheduler = Scheduler::new(5);

    scheduler
        .submit(ScheduledTask::new(
            "task-1".to_string(),
            "station-a".to_string(),
            0,
            PriorityClass::Normal,
        ))
        .unwrap();

    let result = scheduler.submit(ScheduledTask::new(
        "task-1".to_string(),
        "station-a".to_string(),
        0,
        PriorityClass::Normal,
    ));

    assert!(matches!(result, Err(SchedulerError::DuplicateTask { .. })));
}

#[test]
fn test_station_metrics() {
    let mut scheduler = Scheduler::new(3);

    scheduler
        .submit(ScheduledTask::new(
            "task-1".to_string(),
            "station-a".to_string(),
            0,
            PriorityClass::Normal,
        ))
        .unwrap();
    scheduler
        .submit(ScheduledTask::new(
            "task-2".to_string(),
            "station-a".to_string(),
            0,
            PriorityClass::Normal,
        ))
        .unwrap();

    scheduler.next(); // Start task-1
    scheduler.next(); // Start task-2

    assert_eq!(scheduler.station_active_count("station-a"), Some(2));
    assert_eq!(scheduler.station_available_slots("station-a"), Some(1));

    let tasks = scheduler.station_active_tasks("station-a").unwrap();
    assert_eq!(tasks.len(), 2);
    // Should be sorted
    assert!(tasks[0] < tasks[1]);
}

#[test]
fn scheduler_errors_and_queries() {
    let mut scheduler = Scheduler::default();
    assert!(matches!(
        scheduler.complete("t", "nowhere"),
        Err(SchedulerError::StationNotFound { ref station_id }) if station_id == "nowhere"
    ));
    scheduler.register_station("s".to_string(), 1);
    assert!(matches!(scheduler.complete("t", "s"), Err(SchedulerError::TaskNotFound { .. })));
    assert!(matches!(scheduler.cancel("t"), Err(SchedulerError::TaskNotFound { .. })));
    assert_eq!(scheduler.station_available_slots("s"), Some(1));
    assert_eq!(scheduler.station_active_count("x"), None);
    scheduler
        .submit(ScheduledTask::with_context("b".to_string(), "s".to_string(), 0, PriorityClass::Idle, "ctx".to_string()))
        .unwrap();
    scheduler.submit(ScheduledTask::new("a".to_string(), "s".to_string(), 0, PriorityClass::Idle)).unwrap();
    scheduler.submit(ScheduledTask::new("c".to_string(), "r".to_string(), 3, PriorityClass::Critical)).unwrap();
    assert_eq!(scheduler.pending_tasks(), vec!["a".to_string(), "b".to_string(), "c".to_string()]);
    assert_eq!(scheduler.stations(), vec!["r".to_string(), "s".to_string()]);
    assert_eq!(scheduler.next().unwrap().task_id, "a");
    // Station "s" is full now, so "c" at station "r" comes next.
    assert_eq!(scheduler.next().unwrap().task_id, "c");
    assert!(scheduler.next().is_none());
    assert_eq!(scheduler.advance_epoch(), 1);
    assert_eq!(scheduler.current_epoch(), 1);
    scheduler.clear();
    assert_eq!(scheduler.pending_count(), 0);
    assert_eq!(scheduler.station_active_count("s"), Some(0));
    let e = SchedulerError::WipLimitExceeded { station_id: "s".to_string(), current: 2, limit: 2 };
    assert_eq!(e.message(), "WIP limit exceeded for station s: current=2, limit=2");
    assert_eq!(PriorityClass::default(), PriorityClass::Normal);
}
