use todo_app::store::{ExternalLinkStore, InMemoryTaskStore, StoreError, TaskStore};
use todo_app::sync::{
    match_remote_identity, ExternalLink, ExternalProvider, IdentityMatch, RemoteTaskIdentity,
    SyncError, SyncMode, SyncState,
};
use todo_app::task::{DeadlineType, Priority, Task, TaskId, TaskStatus};
use todo_app::tasknotes::{
    import_tasknotes_documents, parse_tasknotes_document, plan_document_import, record_action,
    sort_scanned_documents, stable_content_hash, task_from_document, vault_entry_action,
    ImportAction, ImportStep, TaskNotesConfig, TaskNotesImportSummary, TaskNotesProvider,
    TaskNotesScannedDocument, VaultEntry,
};

fn task(id: &str, title: &str) -> Task {
    Task {
        id: id.into(),
        title: title.into(),
        notes: None,
        status: TaskStatus::Inbox,
        priority: Priority::Normal,
        due_at_ms: None,
        deadline_type: DeadlineType::NoDeadline,
        scheduled: None,
        estimate_minutes: None,
        energy_level: None,
        context: None,
        tags: Vec::new(),
        project_id: None,
        created_at_ms: 1,
        updated_at_ms: 1,
        completed_at_ms: None,
        sort_order: 1,
    }
}

fn scanned_document(relative_path: &str, contents: &str) -> TaskNotesScannedDocument {
    TaskNotesScannedDocument {
        relative_path: relative_path.into(),
        document: parse_tasknotes_document(relative_path, contents),
    }
}

/// A task store with links kept in memory, as the database keeps them.
#[derive(Default)]
struct MemoryStore {
    tasks: InMemoryTaskStore,
    links: Vec<ExternalLink>,
}

impl TaskStore for MemoryStore {
    fn upsert_task(&mut self, task: Task) -> Result<(), StoreError> {
        self.tasks.upsert_task(task)
    }
    fn get_task(&self, id: &TaskId) -> Result<Option<Task>, StoreError> {
        self.tasks.get_task(id)
    }
    fn list_tasks(&self) -> Result<Vec<Task>, StoreError> {
        self.tasks.list_tasks()
    }
    fn list_tasks_by_status(&self, status: TaskStatus) -> Result<Vec<Task>, StoreError> {
        self.tasks.list_tasks_by_status(status)
    }
    fn reorder_tasks(&mut self, task_ids: &[TaskId]) -> Result<(), StoreError> {
        self.tasks.reorder_tasks(task_ids)
    }
    fn delete_task(&mut self, id: &TaskId) -> Result<(), StoreError> {
        self.links.retain(|link| &link.task_id != id);
        self.tasks.delete_task(id)
    }
}

impl ExternalLinkStore for MemoryStore {
    fn upsert_external_link(&mut self, link: ExternalLink) -> Result<(), StoreError> {
        match self.links.iter_mut().find(|existing| existing.id == link.id) {
            Some(existing) => *existing = link,
            None => self.links.push(link),
        }
        Ok(())
    }
    fn get_external_link(&self, id: &str) -> Result<Option<ExternalLink>, StoreError> {
        Ok(self.links.iter().find(|link| link.id == id).cloned())
    }
    fn get_external_link_by_external_id(
        &self,
        provider: &ExternalProvider,
        external_id: &str,
    ) -> Result<Option<ExternalLink>, StoreError> {
        Ok(self
            .links
            .iter()
            .find(|link| &link.provider == provider && link.external_id.as_deref() == Some(external_id))
            .cloned())
    }
    fn get_external_link_by_external_path(
        &self,
        provider: &ExternalProvider,
        external_path: &str,
    ) -> Result<Option<ExternalLink>, StoreError> {
        Ok(self
            .links
            .iter()
            .find(|link| {
                &link.provider == provider && link.external_path.as_deref() == Some(external_path)
            })
            .cloned())
    }
    fn list_external_links_for_task(&self, task_id: &TaskId) -> Result<Vec<ExternalLink>, StoreError> {
        Ok(self.links.iter().filter(|link| &link.task_id == task_id).cloned().collect())
    }
    fn list_external_links(&self) -> Result<Vec<ExternalLink>, StoreError> {
        Ok(self.links.clone())
    }
}

#[test]
fn parses_tasknotes_identity_from_frontmatter() {
    let document = parse_tasknotes_document(
        "Tasks/write-sync-tests.md",
        r#"---
id: tasknotes-1
todo_app_id: task-1
title: Write sync tests
status: TODO
---

Body text.
"#,
    );

    assert_eq!(document.external_id, Some("tasknotes-1".into()));
    assert_eq!(document.todo_app_id, Some("task-1".into()));
    assert_eq!(document.title, "Write sync tests");
    assert_eq!(document.body, "Body text.");
    assert_eq!(
        document.remote_identity("Tasks/write-sync-tests.md"),
        RemoteTaskIdentity {
            provider: ExternalProvider::TaskNotes,
            external_id: Some("tasknotes-1".into()),
            external_path: Some("Tasks/write-sync-tests.md".into()),
            todo_app_id: Some("task-1".into()),
            title: "Write sync tests".into(),
            content_hash: document.content_hash.clone(),
        }
    );
}

#[test]
fn falls_back_to_heading_then_file_stem_for_title() {
    let heading_document =
        parse_tasknotes_document("Tasks/ignored.md", "# Heading title\n\nBody text.");
    let stem_document = parse_tasknotes_document("Tasks/file-stem-title.md", "Body text.");

    assert_eq!(heading_document.title, "Heading title");
    assert_eq!(stem_document.title, "file-stem-title");
}

#[test]
fn parsed_identity_links_by_app_id_without_creating_duplicate() {
    let local_task = task("task-1", "Old title");
    let document = parse_tasknotes_document(
        "Tasks/write-sync-tests.md",
        r#"---
id: tasknotes-1
todo_app_id: task-1
title: New title
---
"#,
    );

    assert_eq!(
        match_remote_identity(
            &document.remote_identity("Tasks/write-sync-tests.md"),
            &[],
            &[local_task]
        ),
        IdentityMatch::Linked("task-1".into())
    );
}

#[test]
fn parsed_identity_links_by_external_id_when_note_moves() {
    let local_task = task("task-1", "Write sync tests");
    let existing_link = ExternalLink {
        id: "link-1".into(),
        task_id: "task-1".into(),
        provider: ExternalProvider::TaskNotes,
        external_id: Some("tasknotes-1".into()),
        external_path: Some("Tasks/original.md".into()),
        last_synced_at_ms: Some(1),
        sync_hash: Some("hash".into()),
        sync_state: SyncState::Linked,
    };
    let document = parse_tasknotes_document(
        "Archive/original.md",
        r#"---
id: tasknotes-1
title: Write sync tests
---
"#,
    );

    assert_eq!(
        match_remote_identity(
            &document.remote_identity("Archive/original.md"),
            &[existing_link],
            &[local_task]
        ),
        IdentityMatch::Linked("task-1".into())
    );
}

#[test]
fn import_documents_is_idempotent_for_existing_tasknotes_link() {
    let mut store = MemoryStore::default();
    let document = scanned_document(
        "Tasks/write-sync-tests.md",
        r#"---
id: tasknotes-1
title: Write sync tests
---

Body text.
"#,
    );

    let first_summary = import_tasknotes_documents(&mut store, &[document.clone()], 100)
        .expect("first import should succeed");
    let second_summary = import_tasknotes_documents(&mut store, &[document], 200)
        .expect("second import should succeed");

    assert_eq!(
        first_summary,
        TaskNotesImportSummary {
            created: 1,
            updated: 0,
            linked: 0,
            conflicts: Vec::new(),
        }
    );
    assert_eq!(
        second_summary,
        TaskNotesImportSummary {
            created: 0,
            updated: 1,
            linked: 0,
            conflicts: Vec::new(),
        }
    );
    assert_eq!(store.list_tasks().expect("tasks should load").len(), 1);
    assert_eq!(
        store
            .list_external_links()
            .expect("links should load")
            .len(),
        1
    );
}

#[test]
fn import_documents_updates_link_path_when_tasknotes_id_moves() {
    let mut store = MemoryStore::default();
    let original = scanned_document(
        "Tasks/original.md",
        r#"---
id: tasknotes-1
title: Write sync tests
---
"#,
    );
    let moved = scanned_document(
        "Archive/original.md",
        r#"---
id: tasknotes-1
title: Write sync tests
---
"#,
    );

    import_tasknotes_documents(&mut store, &[original], 100)
        .expect("first import should succeed");
    import_tasknotes_documents(&mut store, &[moved], 200)
        .expect("second import should succeed");

    let links = store.list_external_links().expect("links should load");
    assert_eq!(store.list_tasks().expect("tasks should load").len(), 1);
    assert_eq!(links.len(), 1);
    assert_eq!(links[0].external_path, Some("Archive/original.md".into()));
}

#[test]
fn import_documents_refuses_title_only_duplicate() {
    let mut store = MemoryStore::default();
    let local_task = task("task-1", "Write sync tests");
    store
        .upsert_task(local_task)
        .expect("local task should insert");
    let document = scanned_document(
        "Tasks/unlinked.md",
        r#"---
title: Write sync tests
---
"#,
    );

    let summary = import_tasknotes_documents(&mut store, &[document], 100)
        .expect("import should complete with conflict");

    assert_eq!(summary.created, 0);
    assert_eq!(summary.updated, 0);
    assert_eq!(summary.conflicts.len(), 1);
    assert_eq!(store.list_tasks().expect("tasks should load").len(), 1);
    assert_eq!(
        store
            .list_external_links()
            .expect("links should load")
            .len(),
        0
    );
}

#[test]
fn provider_import_tasks_is_disabled_when_mode_is_off() {
    let provider = TaskNotesProvider::new(TaskNotesConfig {
        vault_path: "/tmp/unused".into(),
        tasks_glob: "**/*.md".into(),
        mode: SyncMode::Off,
    });

    assert_eq!(provider.import_tasks(), ImportStep::Done(Err(SyncError::Disabled)));
    assert_eq!(
        TaskNotesProvider::preview_of(Err(SyncError::Disabled)),
        Err(SyncError::Disabled)
    );
}

#[test]
fn provider_import_tasks_asks_for_the_vault_when_enabled() {
    let provider = TaskNotesProvider::new(TaskNotesConfig {
        vault_path: "/vault".into(),
        tasks_glob: "**/*.md".into(),
        mode: SyncMode::ImportOnly,
    });
    match provider.import_tasks() {
        ImportStep::ScanVault { vault_path, .. } => assert_eq!(vault_path, "/vault"),
        other => panic!("unexpected step {other:?}"),
    }
    assert_eq!(provider.push_tasks(&[]), Err(SyncError::Disabled));
    assert_eq!(provider.mode(), SyncMode::ImportOnly);
    assert_eq!(provider.config().vault_path, "/vault");
}

#[test]
fn finished_import_creates_one_task_per_note() {
    let document = scanned_document(
        "Tasks/write-sync-tests.md",
        "---\nid: tasknotes-1\ntitle: Write sync tests\n---\n\nBody text.",
    );
    let tasks = TaskNotesProvider::finish_import(7, Ok(vec![document])).expect("import");
    assert_eq!(tasks.len(), 1);
    assert_eq!(tasks[0].id, "tasknotes-id-tasknotes-1");
    assert_eq!(tasks[0].title, "Write sync tests");
    assert_eq!(tasks[0].notes, Some("Body text.".into()));
    assert_eq!(tasks[0].created_at_ms, 7);
    let preview = TaskNotesProvider::preview_of(Ok(tasks)).expect("preview");
    assert_eq!(preview.creates.len(), 1);
    assert_eq!(
        TaskNotesProvider::finish_import(7, Err(SyncError::Provider("unreadable".into()))),
        Err(SyncError::Provider("unreadable".into()))
    );
}

#[test]
fn content_hash_is_fnv1a_in_hex() {
    assert_eq!(stable_content_hash(""), "cbf29ce484222325");
    assert_eq!(stable_content_hash("a"), "af63dc4c8601ec8c");
    assert_eq!(stable_content_hash("foobar"), "85944171f73967e8");
}

#[test]
fn task_ids_come_from_app_id_then_external_id_then_path_hash() {
    let with_app_id = scanned_document("Tasks/a.md", "---\nid: x\ntodo_app_id: task-9\n---\n");
    assert_eq!(task_from_document(&with_app_id, 5).id, "task-9");
    let with_id = scanned_document("Tasks/a.md", "---\nid: x\n---\n");
    assert_eq!(task_from_document(&with_id, 5).id, "tasknotes-id-x");
    let bare = scanned_document("Tasks/a.md", "plain note");
    assert_eq!(
        task_from_document(&bare, 5).id,
        format!("tasknotes-path-{}", stable_content_hash("Tasks/a.md"))
    );
    assert_eq!(task_from_document(&bare, 5).title, "a");
    assert_eq!(task_from_document(&bare, 5).notes, Some("plain note".into()));
}

#[test]
fn frontmatter_values_are_trimmed_and_unquoted() {
    let document = parse_tasknotes_document(
        "Tasks/x.md",
        "---\ntaskId:  \"quoted-id\" \r\nname: 'Named task'\ntodoAppId: [list]\n---\nbody",
    );
    assert_eq!(document.external_id, Some("quoted-id".into()));
    assert_eq!(document.title, "Named task");
    assert_eq!(document.todo_app_id, None);
    assert_eq!(document.body, "body");
    let later_value = parse_tasknotes_document("Tasks/x.md", "---\nid:\nid: second\n---\n");
    assert_eq!(later_value.external_id, Some("second".into()));
    let unclosed = parse_tasknotes_document("Tasks/x.md", "---\nid: x\n");
    assert_eq!(unclosed.external_id, None);
    assert_eq!(unclosed.body, "---\nid: x");
    let untitled = parse_tasknotes_document("", "#  \n#nospace\n");
    assert_eq!(untitled.title, "Untitled task");
}

#[test]
fn scanned_notes_are_sorted_by_path_keeping_equal_paths_in_order() {
    let first_b = scanned_document("b.md", "# First b");
    let second_b = scanned_document("b.md", "# Second b");
    let sorted = sort_scanned_documents(vec![
        scanned_document("c/z.md", "# Z"),
        first_b.clone(),
        scanned_document("a.md", "# A"),
        second_b.clone(),
        scanned_document("B.md", "# Upper"),
    ]);
    let paths: Vec<&str> = sorted.iter().map(|d| d.relative_path.as_str()).collect();
    assert_eq!(paths, vec!["B.md", "a.md", "b.md", "b.md", "c/z.md"]);
    assert_eq!(sorted[2], first_b);
    assert_eq!(sorted[3], second_b);
    assert!(sort_scanned_documents(Vec::new()).is_empty());
}

#[test]
fn vault_scan_reads_markdown_and_skips_obsidian_settings() {
    assert_eq!(vault_entry_action(true, false, ".obsidian", None), VaultEntry::Skip);
    assert_eq!(vault_entry_action(true, false, "Tasks", None), VaultEntry::Descend);
    assert_eq!(vault_entry_action(false, true, "note.md", Some("md")), VaultEntry::Read);
    assert_eq!(vault_entry_action(false, true, "note.MD", Some("MD")), VaultEntry::Skip);
    assert_eq!(vault_entry_action(false, true, "image.png", Some("png")), VaultEntry::Skip);
    assert_eq!(vault_entry_action(false, true, "README", None), VaultEntry::Skip);
    assert_eq!(vault_entry_action(false, false, "link.md", Some("md")), VaultEntry::Skip);
}

#[test]
fn planning_a_linked_note_updates_the_stored_task() {
    let scanned = scanned_document("Tasks/a.md", "---\nid: tn-1\n---\n# New title\n\nBody");
    let mut stored = task("task-1", "Old title");
    stored.priority = Priority::High;
    match plan_document_import(
        &scanned,
        IdentityMatch::Linked("task-1".into()),
        Some(stored),
        50,
    ) {
        ImportAction::Update(task, link) => {
            assert_eq!(task.id, "task-1");
            assert_eq!(task.title, "New title");
            assert_eq!(task.notes, Some("# New title\n\nBody".into()));
            assert_eq!(task.priority, Priority::High);
            assert_eq!(task.updated_at_ms, 50);
            assert_eq!(task.created_at_ms, 1);
            assert_eq!(link.id, "tasknotes:task-1");
            assert_eq!(link.task_id, "task-1");
            assert_eq!(link.external_id, Some("tn-1".into()));
            assert_eq!(link.external_path, Some("Tasks/a.md".into()));
            assert_eq!(link.last_synced_at_ms, Some(50));
            assert_eq!(link.sync_state, SyncState::Linked);
        }
        _ => panic!("a linked note with a stored task is an update"),
    }
}

#[test]
fn planning_a_link_to_a_missing_task_is_a_conflict() {
    let scanned = scanned_document("Tasks/a.md", "# A");
    match plan_document_import(&scanned, IdentityMatch::Linked("task-9".into()), None, 50) {
        ImportAction::Conflict(message) => assert_eq!(
            message,
            "link points to missing local task task-9 for Tasks/a.md"
        ),
        _ => panic!("a link to a missing task is a conflict"),
    }
}

#[test]
fn planning_a_new_note_creates_a_task_and_its_link() {
    let scanned = scanned_document("Tasks/a.md", "---\ntodo_app_id: task-7\n---\n# A");
    match plan_document_import(&scanned, IdentityMatch::NewRemote, None, 60) {
        ImportAction::Create(task, link) => {
            assert_eq!(task, task_from_document(&scanned, 60));
            assert_eq!(task.id, "task-7");
            assert_eq!(link.id, "tasknotes:task-7");
            assert_eq!(link.task_id, "task-7");
            assert_eq!(link.sync_hash, Some(scanned.document.content_hash.clone()));
        }
        _ => panic!("an unmatched note creates a task"),
    }
}

#[test]
fn planning_title_only_and_ambiguous_matches_records_conflicts() {
    let scanned = scanned_document("Tasks/a.md", "# A");
    match plan_document_import(
        &scanned,
        IdentityMatch::PossibleTitleMatch("task-1".into()),
        None,
        60,
    ) {
        ImportAction::Conflict(message) => assert_eq!(
            message,
            "possible title-only match for Tasks/a.md; refusing automatic link"
        ),
        _ => panic!("a title-only match is a conflict"),
    }
    match plan_document_import(
        &scanned,
        IdentityMatch::Conflict("multiple links use external_id tn-1".into()),
        None,
        60,
    ) {
        ImportAction::Conflict(message) => assert_eq!(
            message,
            "Tasks/a.md: multiple links use external_id tn-1"
        ),
        _ => panic!("an ambiguous match is a conflict"),
    }
}

#[test]
fn recording_actions_counts_updates_creations_and_conflicts() {
    let summary = TaskNotesImportSummary {
        created: 2,
        updated: 5,
        linked: 0,
        conflicts: vec!["first".into()],
    };
    let link = ExternalLink {
        id: "tasknotes:task-1".into(),
        task_id: "task-1".into(),
        provider: ExternalProvider::TaskNotes,
        external_id: None,
        external_path: Some("a.md".into()),
        last_synced_at_ms: Some(1),
        sync_hash: None,
        sync_state: SyncState::Linked,
    };
    let updated = record_action(
        summary.clone(),
        &ImportAction::Update(task("task-1", "A"), link.clone()),
    );
    assert_eq!((updated.created, updated.updated), (2, 6));
    assert_eq!(updated.conflicts, vec!["first".to_string()]);
    let created = record_action(summary.clone(), &ImportAction::Create(task("task-1", "A"), link));
    assert_eq!((created.created, created.updated), (3, 5));
    assert_eq!(created.conflicts, vec!["first".to_string()]);
    let conflicted = record_action(summary, &ImportAction::Conflict("second".into()));
    assert_eq!((conflicted.created, conflicted.updated, conflicted.linked), (2, 5, 0));
    assert_eq!(conflicted.conflicts, vec!["first".to_string(), "second".to_string()]);
}

#[test]
fn importing_two_lists_in_turn_counts_as_importing_them_joined() {
    let first = vec![scanned_document("a.md", "---\nid: tn-a\n---\n# A")];
    let second = vec![
        scanned_document("b.md", "---\nid: tn-b\n---\n# B"),
        scanned_document("a.md", "---\nid: tn-a\n---\n# A again"),
    ];
    let mut in_turn = MemoryStore::default();
    let a = import_tasknotes_documents(&mut in_turn, &first, 10).unwrap();
    let b = import_tasknotes_documents(&mut in_turn, &second, 10).unwrap();
    let mut joined = MemoryStore::default();
    let all: Vec<TaskNotesScannedDocument> = first.iter().chain(second.iter()).cloned().collect();
    let s = import_tasknotes_documents(&mut joined, &all, 10).unwrap();
    assert_eq!(s.created, a.created + b.created);
    assert_eq!(s.updated, a.updated + b.updated);
    assert_eq!((s.created, s.updated), (2, 1));
    assert_eq!(in_turn.list_tasks().unwrap(), joined.list_tasks().unwrap());
    assert_eq!(in_turn.list_external_links().unwrap(), joined.list_external_links().unwrap());
}
