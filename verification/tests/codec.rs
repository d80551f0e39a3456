use todo_app::codec::{
    external_link_from_row, link_row, parse_external_provider, parse_priority, parse_status,
    task_from_row, task_row,
};
use todo_app::store::StoreError;
use todo_app::sync::{ExternalLink, ExternalProvider, SyncState};
use todo_app::task::{DeadlineType, EnergyLevel, Priority, Task, TaskStatus, TimeBlock};

fn sample_task() -> Task {
    Task {
        id: "task-1".into(),
        title: "Write persistent task".into(),
        notes: Some("Created from the Inbox editor.".into()),
        status: TaskStatus::InProgress,
        priority: Priority::Urgent,
        due_at_ms: Some(99),
        deadline_type: DeadlineType::Hard,
        scheduled: Some(TimeBlock { start_ms: 10, end_ms: 20 }),
        estimate_minutes: Some(45),
        energy_level: Some(EnergyLevel::Medium),
        context: Some("desk".into()),
        tags: vec!["inbox".into(), "quote \"x\"".into()],
        project_id: Some("p".into()),
        created_at_ms: 10,
        updated_at_ms: 11,
        completed_at_ms: None,
        sort_order: 10,
    }
}

#[test]
fn task_rows_round_trip() {
    let task = sample_task();
    let row = task_row(&task).expect("row");
    assert_eq!(row.status, "InProgress");
    assert_eq!(row.priority, "Urgent");
    assert_eq!(row.deadline_type, "Hard");
    assert_eq!(row.energy_level, Some("Medium".into()));
    assert_eq!(row.scheduled_start_ms, Some(10));
    assert_eq!(row.tags_json, "[\"inbox\",\"quote \\\"x\\\"\"]");
    assert_eq!(task_from_row(&row).expect("task"), task);
}

#[test]
fn task_rows_report_the_first_bad_column() {
    let mut row = task_row(&sample_task()).expect("row");
    row.priority = "Sometime".into();
    assert_eq!(
        task_from_row(&row),
        Err(StoreError::Backend("unknown priority: Sometime".into()))
    );
    row.status = "Later".into();
    assert_eq!(
        task_from_row(&row),
        Err(StoreError::Backend("unknown task status: Later".into()))
    );
    let mut row = task_row(&sample_task()).expect("row");
    row.tags_json = "not json".into();
    match task_from_row(&row) {
        Err(StoreError::Backend(message)) => assert!(message.starts_with("failed to decode tags: ")),
        other => panic!("unexpected {other:?}"),
    }
    let mut row = task_row(&sample_task()).expect("row");
    row.scheduled_end_ms = None;
    assert_eq!(task_from_row(&row).expect("task").scheduled, None);
}

#[test]
fn enum_names_parse_back() {
    assert_eq!(parse_status("Done"), Ok(TaskStatus::Done));
    assert_eq!(parse_priority("Low"), Ok(Priority::Low));
    assert_eq!(parse_external_provider("Calendar"), ExternalProvider::Calendar);
    assert_eq!(
        parse_external_provider("Jira"),
        ExternalProvider::Other("Jira".into())
    );
}

#[test]
fn link_rows_round_trip() {
    let link = ExternalLink {
        id: "link-1".into(),
        task_id: "task-linked".into(),
        provider: ExternalProvider::Other("Jira".into()),
        external_id: Some("tasknotes-1".into()),
        external_path: None,
        last_synced_at_ms: Some(100),
        sync_hash: Some("hash-1".into()),
        sync_state: SyncState::PendingRemoteUpdate,
    };
    let row = link_row(&link);
    assert_eq!(row.provider, "Jira");
    assert_eq!(row.sync_state, "PendingRemoteUpdate");
    assert_eq!(external_link_from_row(&row).expect("link"), link);
    let mut bad = link_row(&link);
    bad.sync_state = "Gone".into();
    assert_eq!(
        external_link_from_row(&bad),
        Err(StoreError::Backend("unknown sync state: Gone".into()))
    );
}
