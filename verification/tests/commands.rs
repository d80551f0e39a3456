use todo_app::clock::unix_millis_from;
use todo_app::commands::{
    apply_task_update, check_new_task_title, mark_task_done, task_or_not_found, new_task_from_input, non_empty_string, task_id_for,
    CreateTaskInput, UpdateTaskInput,
};
use todo_app::llm::{LlmError, LlmProvider, LlmProviderConfig, LlmProviderKind, ProviderStub, TaskCaptureRequest};
use todo_app::task::{Priority, TaskStatus};

fn input(title: &str, notes: Option<&str>) -> CreateTaskInput {
    CreateTaskInput {
        title: title.into(),
        notes: notes.map(str::to_string),
        priority: None,
        due_at_ms: Some(5),
        project_id: None,
    }
}

#[test]
fn creating_a_task_trims_and_fills_defaults() {
    let task = new_task_from_input(&input("  Plan week \n", Some("  ")), 1700, 3).expect("task");
    assert_eq!(task.id, "task-1700-3");
    assert_eq!(task.title, "Plan week");
    assert_eq!(task.notes, None);
    assert_eq!(task.status, TaskStatus::Inbox);
    assert_eq!(task.priority, Priority::Normal);
    assert_eq!(task.due_at_ms, Some(5));
    assert_eq!(task.sort_order, 1700);
    assert_eq!(
        new_task_from_input(&input(" \t", None), 1, 0),
        Err("Task title is required.".to_string())
    );
}

#[test]
fn task_ids_print_signed_times() {
    assert_eq!(task_id_for(-12, 0), "task--12-0");
    assert_eq!(task_id_for(i64::MIN, u64::MAX), "task--9223372036854775808-18446744073709551615");
}

#[test]
fn updating_a_task_changes_only_given_fields() {
    let task = new_task_from_input(&input("Plan", Some(" notes ")), 10, 0).expect("task");
    assert_eq!(task.notes, Some("notes".into()));
    let update = UpdateTaskInput {
        id: task.id.clone(),
        title: Some(" Plan better ".into()),
        notes: Some(None),
        priority: Some(Priority::High),
        due_at_ms: Some(None),
        project_id: None,
    };
    let updated = apply_task_update(task.clone(), &update, 20).expect("update");
    assert_eq!(updated.title, "Plan better");
    assert_eq!(updated.notes, None);
    assert_eq!(updated.priority, Priority::High);
    assert_eq!(updated.due_at_ms, None);
    assert_eq!(updated.updated_at_ms, 20);
    assert_eq!(updated.created_at_ms, 10);
    let blank = UpdateTaskInput { title: Some("   ".into()), ..update };
    assert_eq!(apply_task_update(task, &blank, 30), Err("Task title is required.".to_string()));
}

#[test]
fn completing_a_task_records_the_time() {
    let task = new_task_from_input(&input("Plan", None), 10, 0).expect("task");
    let done = mark_task_done(task, 42);
    assert_eq!(done.status, TaskStatus::Done);
    assert_eq!(done.completed_at_ms, Some(42));
    assert_eq!(done.updated_at_ms, 42);
    assert_eq!(non_empty_string(String::new()), None);
    assert_eq!(non_empty_string("x".into()), Some("x".into()));
}

#[test]
fn provider_stub_refuses_when_disabled() {
    let mut config = LlmProviderConfig {
        id: "llm".into(),
        kind: LlmProviderKind::Ollama,
        model: "m".into(),
        base_url: None,
        auth_storage_ref: None,
        enabled: false,
    };
    let stub = ProviderStub::new(config.clone());
    let request = TaskCaptureRequest { input: "x".into(), now_ms: 0 };
    assert_eq!(stub.capture_tasks(request.clone()), Err(LlmError::Disabled));
    config.enabled = true;
    let stub = ProviderStub::new(config);
    assert_eq!(stub.capture_tasks(request), Ok(vec![]));
    assert_eq!(stub.config().model, "m");
}

#[test]
fn creating_checks_the_title_before_anything_else() {
    assert_eq!(check_new_task_title("  Plan week "), Ok(()));
    assert_eq!(
        check_new_task_title(" \t\n "),
        Err("Task title is required.".to_string())
    );
    assert_eq!(check_new_task_title(""), Err("Task title is required.".to_string()));
}

#[test]
fn a_missing_task_is_reported_by_id() {
    assert_eq!(
        task_or_not_found("task-9", None),
        Err("Task not found: task-9".to_string())
    );
    let created = new_task_from_input(&input("Plan", None), 5, 0).unwrap();
    assert_eq!(task_or_not_found("task-5-0", Some(created.clone())), Ok(created));
}

#[test]
fn clock_readings_become_milliseconds_or_pass_their_error_on() {
    assert_eq!(unix_millis_from(Ok(1_700_000_000_123)), Ok(1_700_000_000_123));
    assert_eq!(unix_millis_from(Ok(0)), Ok(0));
    assert_eq!(unix_millis_from(Ok(u128::from(u64::MAX))), Ok(-1));
    assert_eq!(
        unix_millis_from(Err("second time provided was later than self".into())),
        Err("second time provided was later than self".to_string())
    );
}
