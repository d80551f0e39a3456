use todo_app::sync::{
    match_remote_identity, ExternalLink, ExternalProvider, IdentityMatch, RemoteTaskIdentity,
    SyncState,
};
use todo_app::task::{DeadlineType, Priority, Task, TaskStatus};

fn task(id: &str, title: &str) -> Task {
    Task {
        id: id.into(),
        title: title.into(),
        notes: None,
        status: TaskStatus::Inbox,
        priority: Priority::Normal,
        due_at_ms: None,
        deadline_type: DeadlineType::NoDeadline,
        scheduled: None,
        estimate_minutes: None,
        energy_level: None,
        context: None,
        tags: Vec::new(),
        project_id: None,
        created_at_ms: 1,
        updated_at_ms: 1,
        completed_at_ms: None,
        sort_order: 1,
    }
}

fn link(task_id: &str, external_id: Option<&str>, external_path: Option<&str>) -> ExternalLink {
    ExternalLink {
        id: format!("link-{task_id}"),
        task_id: task_id.into(),
        provider: ExternalProvider::TaskNotes,
        external_id: external_id.map(str::to_string),
        external_path: external_path.map(str::to_string),
        last_synced_at_ms: Some(1),
        sync_hash: Some("hash".into()),
        sync_state: SyncState::Linked,
    }
}

fn remote(
    external_id: Option<&str>,
    external_path: Option<&str>,
    todo_app_id: Option<&str>,
    title: &str,
) -> RemoteTaskIdentity {
    RemoteTaskIdentity {
        provider: ExternalProvider::TaskNotes,
        external_id: external_id.map(str::to_string),
        external_path: external_path.map(str::to_string),
        todo_app_id: todo_app_id.map(str::to_string),
        title: title.into(),
        content_hash: "hash".into(),
    }
}

#[test]
fn app_id_matches_existing_local_task_first() {
    let tasks = vec![task("task-1", "Write sync tests")];
    let links = vec![link(
        "task-2",
        Some("different-remote-id"),
        Some("Tasks/different.md"),
    )];

    assert_eq!(
        match_remote_identity(
            &remote(
                Some("remote-1"),
                Some("Tasks/task.md"),
                Some("task-1"),
                "Other"
            ),
            &links,
            &tasks,
        ),
        IdentityMatch::Linked("task-1".into())
    );
}

#[test]
fn external_id_matches_existing_link_when_path_changes() {
    let tasks = vec![task("task-1", "Write sync tests")];
    let links = vec![link(
        "task-1",
        Some("tasknotes-1"),
        Some("Tasks/original.md"),
    )];

    assert_eq!(
        match_remote_identity(
            &remote(
                Some("tasknotes-1"),
                Some("Archive/original.md"),
                None,
                "Write sync tests"
            ),
            &links,
            &tasks,
        ),
        IdentityMatch::Linked("task-1".into())
    );
}

#[test]
fn external_path_matches_when_stable_id_is_missing() {
    let tasks = vec![task("task-1", "Write sync tests")];
    let links = vec![link("task-1", None, Some("Tasks/original.md"))];

    assert_eq!(
        match_remote_identity(
            &remote(None, Some("Tasks/original.md"), None, "Renamed task"),
            &links,
            &tasks,
        ),
        IdentityMatch::Linked("task-1".into())
    );
}

#[test]
fn title_only_match_is_possible_but_not_linked() {
    let tasks = vec![task("task-1", "Write sync tests")];
    let links = Vec::new();

    assert_eq!(
        match_remote_identity(
            &remote(None, None, None, "Write sync tests"),
            &links,
            &tasks,
        ),
        IdentityMatch::PossibleTitleMatch("task-1".into())
    );
}

#[test]
fn duplicate_external_id_is_a_conflict() {
    let tasks = vec![task("task-1", "One"), task("task-2", "Two")];
    let links = vec![
        link("task-1", Some("shared-id"), Some("Tasks/one.md")),
        link("task-2", Some("shared-id"), Some("Tasks/two.md")),
    ];

    assert!(matches!(
        match_remote_identity(
            &remote(Some("shared-id"), Some("Tasks/three.md"), None, "Three"),
            &links,
            &tasks,
        ),
        IdentityMatch::Conflict(_)
    ));
}

#[test]
fn conflict_messages_name_the_shared_key() {
    let tasks = vec![task("task-1", "Same"), task("task-1", "Same")];
    assert_eq!(
        match_remote_identity(&remote(None, None, Some("task-1"), "x"), &[], &tasks),
        IdentityMatch::Conflict("multiple local tasks use todo_app_id task-1".into())
    );
    let links = vec![
        link("task-1", Some("shared-id"), Some("Tasks/one.md")),
        link("task-2", Some("shared-id"), Some("Tasks/two.md")),
    ];
    assert_eq!(
        match_remote_identity(&remote(Some("shared-id"), None, None, "x"), &links, &[]),
        IdentityMatch::Conflict("multiple links use external_id shared-id".into())
    );
    let links = vec![
        link("task-1", None, Some("Tasks/shared.md")),
        link("task-2", None, Some("Tasks/shared.md")),
    ];
    assert_eq!(
        match_remote_identity(&remote(None, Some("Tasks/shared.md"), None, "x"), &links, &[]),
        IdentityMatch::Conflict("multiple links use external_path Tasks/shared.md".into())
    );
    assert_eq!(
        match_remote_identity(&remote(None, None, None, "Same"), &[], &tasks),
        IdentityMatch::Conflict("multiple local tasks have title Same".into())
    );
}

#[test]
fn unmatched_remote_is_new_and_other_providers_do_not_match() {
    let tasks = vec![task("task-1", "Write sync tests")];
    let mut calendar_link = link("task-1", Some("tasknotes-1"), None);
    calendar_link.provider = ExternalProvider::Calendar;
    assert_eq!(
        match_remote_identity(&remote(Some("tasknotes-1"), None, None, "New"), &[calendar_link], &tasks),
        IdentityMatch::NewRemote
    );
    assert_eq!(
        match_remote_identity(&remote(None, None, Some("missing"), "New"), &[], &tasks),
        IdentityMatch::NewRemote
    );
}
