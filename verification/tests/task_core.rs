use todo_app::schedule::{
    CalendarBusyBlock, GreedyScheduler, ScheduleRequest, Scheduler,
};
use todo_app::task::{DeadlineType, Priority, Task, TaskStatus, TimeBlock};

fn task(id: &str, priority: Priority, estimate: Option<i64>, created: i64) -> Task {
    Task {
        id: id.into(),
        title: id.into(),
        notes: None,
        status: TaskStatus::Inbox,
        priority,
        due_at_ms: None,
        deadline_type: DeadlineType::NoDeadline,
        scheduled: None,
        estimate_minutes: estimate,
        energy_level: None,
        context: None,
        tags: vec![],
        project_id: None,
        created_at_ms: created,
        updated_at_ms: created,
        completed_at_ms: None,
        sort_order: created,
    }
}

#[test]
fn greedy_scheduler_uses_free_time_around_busy_blocks() {
    let scheduler = GreedyScheduler;
    let plan = scheduler.propose_schedule(ScheduleRequest {
        tasks: vec![Task {
            id: "task-1".into(),
            title: "Write plan".into(),
            notes: None,
            status: TaskStatus::Inbox,
            priority: Priority::High,
            due_at_ms: None,
            deadline_type: DeadlineType::NoDeadline,
            scheduled: None,
            estimate_minutes: Some(30),
            energy_level: None,
            context: None,
            tags: vec![],
            project_id: None,
            created_at_ms: 0,
            updated_at_ms: 0,
            completed_at_ms: None,
            sort_order: 0,
        }],
        busy: vec![CalendarBusyBlock {
            source: "calendar".into(),
            block: TimeBlock {
                start_ms: 30 * 60_000,
                end_ms: 60 * 60_000,
            },
        }],
        candidate_blocks: vec![TimeBlock {
            start_ms: 0,
            end_ms: 120 * 60_000,
        }],
    });

    assert_eq!(plan.scheduled.len(), 1);
    assert_eq!(plan.scheduled[0].block.start_ms, 0);
    assert!(plan.unscheduled_task_ids.is_empty());
}

#[test]
fn scheduler_places_higher_priority_first_and_skips_busy_time() {
    let plan = GreedyScheduler.propose_schedule(ScheduleRequest {
        tasks: vec![
            task("low", Priority::Low, Some(30), 1),
            task("urgent", Priority::Urgent, Some(30), 2),
        ],
        busy: vec![CalendarBusyBlock {
            source: "calendar".into(),
            block: TimeBlock { start_ms: 0, end_ms: 20 * 60_000 },
        }],
        candidate_blocks: vec![TimeBlock { start_ms: 0, end_ms: 90 * 60_000 }],
    });
    assert_eq!(plan.scheduled.len(), 2);
    assert_eq!(plan.scheduled[0].task_id, "urgent");
    assert_eq!(
        plan.scheduled[0].block,
        TimeBlock { start_ms: 20 * 60_000, end_ms: 50 * 60_000 }
    );
    assert_eq!(plan.scheduled[1].task_id, "low");
    assert_eq!(
        plan.scheduled[1].block,
        TimeBlock { start_ms: 50 * 60_000, end_ms: 80 * 60_000 }
    );
    assert_eq!(
        plan.scheduled[0].reason,
        "Fits the earliest available block using priority order."
    );
}

#[test]
fn scheduler_reports_tasks_that_do_not_fit() {
    let plan = GreedyScheduler.propose_schedule(ScheduleRequest {
        tasks: vec![
            task("fits", Priority::Normal, None, 1),
            task("too-long", Priority::Normal, Some(120), 2),
        ],
        busy: vec![],
        candidate_blocks: vec![TimeBlock { start_ms: 0, end_ms: 60 * 60_000 }],
    });
    assert_eq!(plan.scheduled.len(), 1);
    assert_eq!(plan.scheduled[0].task_id, "fits");
    assert_eq!(plan.scheduled[0].block.end_ms, 30 * 60_000);
    assert_eq!(plan.unscheduled_task_ids, vec!["too-long".to_string()]);
}

#[test]
fn scheduler_uses_minimum_estimate_and_later_candidates() {
    let plan = GreedyScheduler.propose_schedule(ScheduleRequest {
        tasks: vec![task("tiny", Priority::Normal, Some(1), 1)],
        busy: vec![CalendarBusyBlock {
            source: "calendar".into(),
            block: TimeBlock { start_ms: 0, end_ms: 10 * 60_000 },
        }],
        candidate_blocks: vec![
            TimeBlock { start_ms: 0, end_ms: 10 * 60_000 },
            TimeBlock { start_ms: 100 * 60_000, end_ms: 200 * 60_000 },
        ],
    });
    assert_eq!(
        plan.scheduled[0].block,
        TimeBlock { start_ms: 100 * 60_000, end_ms: 105 * 60_000 }
    );
}

#[test]
fn time_block_duration_and_overlap() {
    let a = TimeBlock { start_ms: 0, end_ms: 90 * 60_000 + 59_999 };
    let b = TimeBlock { start_ms: 90 * 60_000, end_ms: 100 * 60_000 };
    let c = TimeBlock { start_ms: 100 * 60_000, end_ms: 110 * 60_000 };
    assert_eq!(a.duration_minutes(), 90);
    assert_eq!(TimeBlock { start_ms: 60_000, end_ms: 0 }.duration_minutes(), -1);
    assert!(a.overlaps(&b));
    assert!(b.overlaps(&a));
    assert!(!b.overlaps(&c));
    assert!(!c.overlaps(&b));
}
