use todo_app::store::{require_row_changed, InMemoryTaskStore, StoreError, TaskStore};
use todo_app::task::{DeadlineType, Priority, Task, TaskStatus};

fn task(id: &str, status: TaskStatus, sort_order: i64, created: i64) -> Task {
    Task {
        id: id.into(),
        title: id.into(),
        notes: None,
        status,
        priority: Priority::Normal,
        due_at_ms: None,
        deadline_type: DeadlineType::NoDeadline,
        scheduled: None,
        estimate_minutes: None,
        energy_level: None,
        context: None,
        tags: Vec::new(),
        project_id: None,
        created_at_ms: created,
        updated_at_ms: created,
        completed_at_ms: None,
        sort_order,
    }
}

#[test]
fn memory_store_reads_back_what_it_wrote() {
    let mut store = InMemoryTaskStore::default();
    let mut t = task("task-1", TaskStatus::Inbox, 1, 1);
    t.tags = vec!["inbox".into()];
    store.upsert_task(t.clone()).expect("insert");
    assert_eq!(store.get_task(&"task-1".to_string()).expect("get"), Some(t.clone()));
    t.title = "Updated".into();
    store.upsert_task(t.clone()).expect("update");
    assert_eq!(store.list_tasks().expect("list"), vec![t]);
    assert_eq!(store.get_task(&"missing".to_string()).expect("get"), None);
}

#[test]
fn memory_store_lists_in_sort_order_and_filters_by_status() {
    let mut store = InMemoryTaskStore::default();
    store.upsert_task(task("b", TaskStatus::Inbox, 2, 1)).unwrap();
    store.upsert_task(task("a", TaskStatus::Inbox, 2, 1)).unwrap();
    store.upsert_task(task("c", TaskStatus::Done, 0, 5)).unwrap();
    store.upsert_task(task("d", TaskStatus::Inbox, 1, 9)).unwrap();
    let ids: Vec<String> = store.list_tasks().unwrap().into_iter().map(|t| t.id).collect();
    assert_eq!(ids, vec!["c", "d", "a", "b"]);
    let inbox: Vec<String> = store
        .list_tasks_by_status(TaskStatus::Inbox)
        .unwrap()
        .into_iter()
        .map(|t| t.id)
        .collect();
    assert_eq!(inbox, vec!["d", "a", "b"]);
}

#[test]
fn memory_store_reorders_and_reports_missing_tasks() {
    let mut store = InMemoryTaskStore::default();
    store.upsert_task(task("task-first", TaskStatus::Inbox, 0, 1)).unwrap();
    store.upsert_task(task("task-second", TaskStatus::Inbox, 1, 2)).unwrap();
    store.upsert_task(task("task-third", TaskStatus::Inbox, 2, 3)).unwrap();
    store
        .reorder_tasks(&["task-third".into(), "task-first".into(), "task-second".into()])
        .expect("reorder");
    let ids: Vec<String> = store
        .list_tasks_by_status(TaskStatus::Inbox)
        .unwrap()
        .into_iter()
        .map(|t| t.id)
        .collect();
    assert_eq!(ids, vec!["task-third", "task-first", "task-second"]);
    assert_eq!(
        store.reorder_tasks(&["task-first".into(), "nope".into()]),
        Err(StoreError::NotFound("nope".into()))
    );
}

#[test]
fn memory_store_deletes_and_reports_missing_tasks() {
    let mut store = InMemoryTaskStore::default();
    store.upsert_task(task("task-1", TaskStatus::Inbox, 0, 1)).unwrap();
    store.delete_task(&"task-1".to_string()).expect("delete");
    assert_eq!(store.get_task(&"task-1".to_string()).unwrap(), None);
    assert_eq!(
        store.delete_task(&"task-1".to_string()),
        Err(StoreError::NotFound("task-1".into()))
    );
}

#[test]
fn a_write_that_changes_no_row_names_a_missing_task() {
    assert_eq!(
        require_row_changed(&"task-9".to_string(), 0),
        Err(StoreError::NotFound("task-9".into()))
    );
    assert_eq!(require_row_changed(&"task-1".to_string(), 1), Ok(()));
    assert_eq!(require_row_changed(&"task-1".to_string(), 3), Ok(()));
}
