//! The row format of the task database: how tasks and links are written to columns and
//! read back from them.
use crate::store::StoreError;
use crate::sync::{ExternalLink, ExternalProvider, LinkView, ProviderView, SyncState};
use crate::task::{
    clone_opt_string, opt_str_view, strs_view, DeadlineType, EnergyLevel, Priority, Task,
    TaskStatus, TaskView, TimeBlock,
};
use vstd::prelude::*;

verus! {

#[verifier::external_type_specification]
#[verifier::external_body]
pub struct ExJsonError(serde_json::Error);

/// The JSON text that `serde_json` writes for an array of strings.
pub uninterp spec fn json_string_array(items: Seq<Seq<char>>) -> Seq<char>;

/// The array of strings that `serde_json` reads from a JSON text, if it holds one.
pub uninterp spec fn json_parse_string_array(text: Seq<char>) -> Option<Seq<Seq<char>>>;

/// `serde_json::to_string` on a vector of strings. Its documentation says that serialising
/// fails only for a `Serialize` impl that fails or for a map with non-string keys, neither of
/// which a vector of strings has; the text is named by `json_string_array`.
#[verifier::external_body]
fn json_encode_strings(items: &Vec<String>) -> (r: Result<String, serde_json::Error>)
    ensures
        r is Ok,
        r matches Ok(s) ==> s@ == json_string_array(strs_view(items@)),
{
    serde_json::to_string(items)
}

/// `serde_json::from_str` into a vector of strings: succeeds exactly when the text holds
/// such an array, named by `json_parse_string_array`.
#[verifier::external_body]
fn json_decode_strings(text: &str) -> (r: Result<Vec<String>, serde_json::Error>)
    ensures
        r is Ok <==> json_parse_string_array(text@) is Some,
        r matches Ok(v) ==> Some(strs_view(v@)) == json_parse_string_array(text@),
{
    serde_json::from_str(text)
}

fn text_is(value: &str, name: &str) -> (r: bool)
    ensures
        r == (value@ == name@),
{
    String::from_str(value) == String::from_str(name)
}

fn backend_error(prefix: &str, value: &str) -> (e: StoreError)
    ensures
        e matches StoreError::Backend(m) && m@ == prefix@ + value@,
{
    let mut m = String::from_str(prefix);
    m.append(value);
    StoreError::Backend(m)
}

pub open spec fn status_name(s: TaskStatus) -> Seq<char> {
    match s {
        TaskStatus::Inbox => "Inbox"@,
        TaskStatus::Planned => "Planned"@,
        TaskStatus::InProgress => "InProgress"@,
        TaskStatus::Done => "Done"@,
        TaskStatus::Canceled => "Canceled"@,
    }
}

pub open spec fn priority_name(p: Priority) -> Seq<char> {
    match p {
        Priority::Low => "Low"@,
        Priority::Normal => "Normal"@,
        Priority::High => "High"@,
        Priority::Urgent => "Urgent"@,
    }
}

pub open spec fn deadline_type_name(d: DeadlineType) -> Seq<char> {
    match d {
        DeadlineType::NoDeadline => "None"@,
        DeadlineType::Soft => "Soft"@,
        DeadlineType::Hard => "Hard"@,
    }
}

pub open spec fn energy_level_name(e: EnergyLevel) -> Seq<char> {
    match e {
        EnergyLevel::Low => "Low"@,
        EnergyLevel::Medium => "Medium"@,
        EnergyLevel::High => "High"@,
    }
}

pub open spec fn sync_state_name(s: SyncState) -> Seq<char> {
    match s {
        SyncState::Linked => "Linked"@,
        SyncState::PendingLocalCreate => "PendingLocalCreate"@,
        SyncState::PendingLocalUpdate => "PendingLocalUpdate"@,
        SyncState::PendingRemoteUpdate => "PendingRemoteUpdate"@,
        SyncState::Conflict => "Conflict"@,
        SyncState::DeletedRemote => "DeletedRemote"@,
    }
}

pub open spec fn provider_name(p: ProviderView) -> Seq<char> {
    match p {
        ProviderView::TaskNotes => "TaskNotes"@,
        ProviderView::Calendar => "Calendar"@,
        ProviderView::Llm => "Llm"@,
        ProviderView::Other(s) => s,
    }
}

pub open spec fn parse_status_spec(v: Seq<char>) -> Option<TaskStatus> {
    if v == "Inbox"@ {
        Some(TaskStatus::Inbox)
    } else if v == "Planned"@ {
        Some(TaskStatus::Planned)
    } else if v == "InProgress"@ {
        Some(TaskStatus::InProgress)
    } else if v == "Done"@ {
        Some(TaskStatus::Done)
    } else if v == "Canceled"@ {
        Some(TaskStatus::Canceled)
    } else {
        None
    }
}

pub open spec fn parse_priority_spec(v: Seq<char>) -> Option<Priority> {
    if v == "Low"@ {
        Some(Priority::Low)
    } else if v == "Normal"@ {
        Some(Priority::Normal)
    } else if v == "High"@ {
        Some(Priority::High)
    } else if v == "Urgent"@ {
        Some(Priority::Urgent)
    } else {
        None
    }
}

pub open spec fn parse_deadline_type_spec(v: Seq<char>) -> Option<DeadlineType> {
    if v == "None"@ {
        Some(DeadlineType::NoDeadline)
    } else if v == "Soft"@ {
        Some(DeadlineType::Soft)
    } else if v == "Hard"@ {
        Some(DeadlineType::Hard)
    } else {
        None
    }
}

pub open spec fn parse_energy_level_spec(v: Seq<char>) -> Option<EnergyLevel> {
    if v == "Low"@ {
        Some(EnergyLevel::Low)
    } else if v == "Medium"@ {
        Some(EnergyLevel::Medium)
    } else if v == "High"@ {
        Some(EnergyLevel::High)
    } else {
        None
    }
}

pub open spec fn parse_sync_state_spec(v: Seq<char>) -> Option<SyncState> {
    if v == "Linked"@ {
        Some(SyncState::Linked)
    } else if v == "PendingLocalCreate"@ {
        Some(SyncState::PendingLocalCreate)
    } else if v == "PendingLocalUpdate"@ {
        Some(SyncState::PendingLocalUpdate)
    } else if v == "PendingRemoteUpdate"@ {
        Some(SyncState::PendingRemoteUpdate)
    } else if v == "Conflict"@ {
        Some(SyncState::Conflict)
    } else if v == "DeletedRemote"@ {
        Some(SyncState::DeletedRemote)
    } else {
        None
    }
}

pub open spec fn parse_provider_spec(v: Seq<char>) -> ProviderView {
    if v == "TaskNotes"@ {
        ProviderView::TaskNotes
    } else if v == "Calendar"@ {
        ProviderView::Calendar
    } else if v == "Llm"@ {
        ProviderView::Llm
    } else {
        ProviderView::Other(v)
    }
}

pub fn status_to_str(status: &TaskStatus) -> (r: &'static str)
    ensures
        r@ == status_name(*status),
{
    match status {
        TaskStatus::Inbox => "Inbox",
        TaskStatus::Planned => "Planned",
        TaskStatus::InProgress => "InProgress",
        TaskStatus::Done => "Done",
        TaskStatus::Canceled => "Canceled",
    }
}

pub fn parse_status(value: &str) -> (r: Result<TaskStatus, StoreError>)
    ensures
        match parse_status_spec(value@) {
            Some(s) => r == Ok::<TaskStatus, StoreError>(s),
            None => r matches Err(StoreError::Backend(m)) && m@ == "unknown task status: "@
                + value@,
        },
{
    if text_is(value, "Inbox") {
        Ok(TaskStatus::Inbox)
    } else if text_is(value, "Planned") {
        Ok(TaskStatus::Planned)
    } else if text_is(value, "InProgress") {
        Ok(TaskStatus::InProgress)
    } else if text_is(value, "Done") {
        Ok(TaskStatus::Done)
    } else if text_is(value, "Canceled") {
        Ok(TaskStatus::Canceled)
    } else {
        Err(backend_error("unknown task status: ", value))
    }
}

pub fn priority_to_str(priority: &Priority) -> (r: &'static str)
    ensures
        r@ == priority_name(*priority),
{
    match priority {
        Priority::Low => "Low",
        Priority::Normal => "Normal",
        Priority::High => "High",
        Priority::Urgent => "Urgent",
    }
}

pub fn parse_priority(value: &str) -> (r: Result<Priority, StoreError>)
    ensures
        match parse_priority_spec(value@) {
            Some(p) => r == Ok::<Priority, StoreError>(p),
            None => r matches Err(StoreError::Backend(m)) && m@ == "unknown priority: "@ + value@,
        },
{
    if text_is(value, "Low") {
        Ok(Priority::Low)
    } else if text_is(value, "Normal") {
        Ok(Priority::Normal)
    } else if text_is(value, "High") {
        Ok(Priority::High)
    } else if text_is(value, "Urgent") {
        Ok(Priority::Urgent)
    } else {
        Err(backend_error("unknown priority: ", value))
    }
}

pub fn deadline_type_to_str(deadline_type: &DeadlineType) -> (r: &'static str)
    ensures
        r@ == deadline_type_name(*deadline_type),
{
    match deadline_type {
        DeadlineType::NoDeadline => "None",
        DeadlineType::Soft => "Soft",
        DeadlineType::Hard => "Hard",
    }
}

pub fn parse_deadline_type(value: &str) -> (r: Result<DeadlineType, StoreError>)
    ensures
        match parse_deadline_type_spec(value@) {
            Some(d) => r == Ok::<DeadlineType, StoreError>(d),
            None => r matches Err(StoreError::Backend(m)) && m@ == "unknown deadline type: "@
                + value@,
        },
{
    if text_is(value, "None") {
        Ok(DeadlineType::NoDeadline)
    } else if text_is(value, "Soft") {
        Ok(DeadlineType::Soft)
    } else if text_is(value, "Hard") {
        Ok(DeadlineType::Hard)
    } else {
        Err(backend_error("unknown deadline type: ", value))
    }
}

pub fn energy_level_to_str(energy_level: &EnergyLevel) -> (r: &'static str)
    ensures
        r@ == energy_level_name(*energy_level),
{
    match energy_level {
        EnergyLevel::Low => "Low",
        EnergyLevel::Medium => "Medium",
        EnergyLevel::High => "High",
    }
}

pub fn parse_energy_level(value: &str) -> (r: Result<EnergyLevel, StoreError>)
    ensures
        match parse_energy_level_spec(value@) {
            Some(e) => r == Ok::<EnergyLevel, StoreError>(e),
            None => r matches Err(StoreError::Backend(m)) && m@ == "unknown energy level: "@
                + value@,
        },
{
    if text_is(value, "Low") {
        Ok(EnergyLevel::Low)
    } else if text_is(value, "Medium") {
        Ok(EnergyLevel::Medium)
    } else if text_is(value, "High") {
        Ok(EnergyLevel::High)
    } else {
        Err(backend_error("unknown energy level: ", value))
    }
}

pub fn sync_state_to_str(sync_state: &SyncState) -> (r: &'static str)
    ensures
        r@ == sync_state_name(*sync_state),
{
    match sync_state {
        SyncState::Linked => "Linked",
        SyncState::PendingLocalCreate => "PendingLocalCreate",
        SyncState::PendingLocalUpdate => "PendingLocalUpdate",
        SyncState::PendingRemoteUpdate => "PendingRemoteUpdate",
        SyncState::Conflict => "Conflict",
        SyncState::DeletedRemote => "DeletedRemote",
    }
}

pub fn parse_sync_state(value: &str) -> (r: Result<SyncState, StoreError>)
    ensures
        match parse_sync_state_spec(value@) {
            Some(s) => r == Ok::<SyncState, StoreError>(s),
            None => r matches Err(StoreError::Backend(m)) && m@ == "unknown sync state: "@ + value@,
        },
{
    if text_is(value, "Linked") {
        Ok(SyncState::Linked)
    } else if text_is(value, "PendingLocalCreate") {
        Ok(SyncState::PendingLocalCreate)
    } else if text_is(value, "PendingLocalUpdate") {
        Ok(SyncState::PendingLocalUpdate)
    } else if text_is(value, "PendingRemoteUpdate") {
        Ok(SyncState::PendingRemoteUpdate)
    } else if text_is(value, "Conflict") {
        Ok(SyncState::Conflict)
    } else if text_is(value, "DeletedRemote") {
        Ok(SyncState::DeletedRemote)
    } else {
        Err(backend_error("unknown sync state: ", value))
    }
}

pub fn external_provider_to_str(provider: &ExternalProvider) -> (r: &str)
    ensures
        r@ == provider_name(provider@),
{
    match provider {
        ExternalProvider::TaskNotes => "TaskNotes",
        ExternalProvider::Calendar => "Calendar",
        ExternalProvider::Llm => "Llm",
        ExternalProvider::Other(value) => value.as_str(),
    }
}

pub fn parse_external_provider(value: &str) -> (r: ExternalProvider)
    ensures
        r@ == parse_provider_spec(value@),
{
    if text_is(value, "TaskNotes") {
        ExternalProvider::TaskNotes
    } else if text_is(value, "Calendar") {
        ExternalProvider::Calendar
    } else if text_is(value, "Llm") {
        ExternalProvider::Llm
    } else {
        ExternalProvider::Other(String::from_str(value))
    }
}


/// The column values of one task in the database.
#[derive(Debug, PartialEq, Eq)]
pub struct TaskRow {
    pub id: String,
    pub title: String,
    pub notes: Option<String>,
    pub status: String,
    pub priority: String,
    pub due_at_ms: Option<i64>,
    pub deadline_type: String,
    pub scheduled_start_ms: Option<i64>,
    pub scheduled_end_ms: Option<i64>,
    pub estimate_minutes: Option<i64>,
    pub energy_level: Option<String>,
    pub context: Option<String>,
    pub tags_json: String,
    pub project_id: Option<String>,
    pub created_at_ms: i64,
    pub updated_at_ms: i64,
    pub completed_at_ms: Option<i64>,
    pub sort_order: i64,
}

pub struct TaskRowView {
    pub id: Seq<char>,
    pub title: Seq<char>,
    pub notes: Option<Seq<char>>,
    pub status: Seq<char>,
    pub priority: Seq<char>,
    pub due_at_ms: Option<i64>,
    pub deadline_type: Seq<char>,
    pub scheduled_start_ms: Option<i64>,
    pub scheduled_end_ms: Option<i64>,
    pub estimate_minutes: Option<i64>,
    pub energy_level: Option<Seq<char>>,
    pub context: Option<Seq<char>>,
    pub tags_json: Seq<char>,
    pub project_id: Option<Seq<char>>,
    pub created_at_ms: i64,
    pub updated_at_ms: i64,
    pub completed_at_ms: Option<i64>,
    pub sort_order: i64,
}

impl View for TaskRow {
    type V = TaskRowView;

    open spec fn view(&self) -> TaskRowView {
        TaskRowView {
            id: self.id@,
            title: self.title@,
            notes: opt_str_view(self.notes),
            status: self.status@,
            priority: self.priority@,
            due_at_ms: self.due_at_ms,
            deadline_type: self.deadline_type@,
            scheduled_start_ms: self.scheduled_start_ms,
            scheduled_end_ms: self.scheduled_end_ms,
            estimate_minutes: self.estimate_minutes,
            energy_level: opt_str_view(self.energy_level),
            context: opt_str_view(self.context),
            tags_json: self.tags_json@,
            project_id: opt_str_view(self.project_id),
            created_at_ms: self.created_at_ms,
            updated_at_ms: self.updated_at_ms,
            completed_at_ms: self.completed_at_ms,
            sort_order: self.sort_order,
        }
    }
}

/// The row a task is written as.
pub open spec fn encode_task(t: TaskView) -> TaskRowView {
    TaskRowView {
        id: t.id,
        title: t.title,
        notes: t.notes,
        status: status_name(t.status),
        priority: priority_name(t.priority),
        due_at_ms: t.due_at_ms,
        deadline_type: deadline_type_name(t.deadline_type),
        scheduled_start_ms: match t.scheduled {
            Some(b) => Some(b.start_ms),
            None => None,
        },
        scheduled_end_ms: match t.scheduled {
            Some(b) => Some(b.end_ms),
            None => None,
        },
        estimate_minutes: t.estimate_minutes,
        energy_level: match t.energy_level {
            Some(e) => Some(energy_level_name(e)),
            None => None,
        },
        context: t.context,
        tags_json: json_string_array(t.tags),
        project_id: t.project_id,
        created_at_ms: t.created_at_ms,
        updated_at_ms: t.updated_at_ms,
        completed_at_ms: t.completed_at_ms,
        sort_order: t.sort_order,
    }
}

/// What reading a row gives: the task, or the first column that does not decode.
pub enum TaskDecoding {
    Decoded(TaskView),
    BadStatus,
    BadPriority,
    BadDeadlineType,
    BadEnergyLevel,
    BadTags,
}

pub open spec fn decode_energy(e: Option<Seq<char>>) -> Option<Option<EnergyLevel>> {
    match e {
        None => Some(None),
        Some(v) => match parse_energy_level_spec(v) {
            Some(x) => Some(Some(x)),
            None => None,
        },
    }
}

pub open spec fn decode_task(r: TaskRowView) -> TaskDecoding {
    match parse_status_spec(r.status) {
        None => TaskDecoding::BadStatus,
        Some(status) => match parse_priority_spec(r.priority) {
            None => TaskDecoding::BadPriority,
            Some(priority) => match parse_deadline_type_spec(r.deadline_type) {
                None => TaskDecoding::BadDeadlineType,
                Some(deadline_type) => match decode_energy(r.energy_level) {
                    None => TaskDecoding::BadEnergyLevel,
                    Some(energy_level) => match json_parse_string_array(r.tags_json) {
                        None => TaskDecoding::BadTags,
                        Some(tags) => TaskDecoding::Decoded(
                            TaskView {
                                id: r.id,
                                title: r.title,
                                notes: r.notes,
                                status,
                                priority,
                                due_at_ms: r.due_at_ms,
                                deadline_type,
                                scheduled: match (r.scheduled_start_ms, r.scheduled_end_ms) {
                                    (Some(start_ms), Some(end_ms)) => Some(
                                        TimeBlock { start_ms, end_ms },
                                    ),
                                    _ => None,
                                },
                                estimate_minutes: r.estimate_minutes,
                                energy_level,
                                context: r.context,
                                tags,
                                project_id: r.project_id,
                                created_at_ms: r.created_at_ms,
                                updated_at_ms: r.updated_at_ms,
                                completed_at_ms: r.completed_at_ms,
                                sort_order: r.sort_order,
                            },
                        ),
                    },
                },
            },
        },
    }
}

/// The row for a task.
pub fn task_row(task: &Task) -> (r: Result<TaskRow, StoreError>)
    ensures
        r matches Ok(row) && row@ == encode_task(task@),
{
    let tags_json = match json_encode_strings(&task.tags) {
        Ok(json) => json,
        Err(error) => {
            let mut m = String::from_str("failed to encode tags: ");
            m.append(error.to_string().as_str());
            return Err(StoreError::Backend(m));
        },
    };
    let (scheduled_start_ms, scheduled_end_ms) = match task.scheduled {
        Some(block) => (Some(block.start_ms), Some(block.end_ms)),
        None => (None, None),
    };
    let energy_level = match &task.energy_level {
        Some(e) => Some(String::from_str(energy_level_to_str(e))),
        None => None,
    };
    Ok(
        TaskRow {
            id: task.id.clone(),
            title: task.title.clone(),
            notes: clone_opt_string(&task.notes),
            status: String::from_str(status_to_str(&task.status)),
            priority: String::from_str(priority_to_str(&task.priority)),
            due_at_ms: task.due_at_ms,
            deadline_type: String::from_str(deadline_type_to_str(&task.deadline_type)),
            scheduled_start_ms,
            scheduled_end_ms,
            estimate_minutes: task.estimate_minutes,
            energy_level,
            context: clone_opt_string(&task.context),
            tags_json,
            project_id: clone_opt_string(&task.project_id),
            created_at_ms: task.created_at_ms,
            updated_at_ms: task.updated_at_ms,
            completed_at_ms: task.completed_at_ms,
            sort_order: task.sort_order,
        },
    )
}

pub open spec fn has_prefix(s: Seq<char>, prefix: Seq<char>) -> bool {
    prefix.len() <= s.len() && s.subrange(0, prefix.len() as int) == prefix
}

/// The task a row holds, or the error for its first column that does not decode.
pub fn task_from_row(row: &TaskRow) -> (r: Result<Task, StoreError>)
    ensures
        match decode_task(row@) {
            TaskDecoding::Decoded(t) => r matches Ok(task) && task@ == t,
            TaskDecoding::BadStatus => r matches Err(StoreError::Backend(m)) && m@
                == "unknown task status: "@ + row.status@,
            TaskDecoding::BadPriority => r matches Err(StoreError::Backend(m)) && m@
                == "unknown priority: "@ + row.priority@,
            TaskDecoding::BadDeadlineType => r matches Err(StoreError::Backend(m)) && m@
                == "unknown deadline type: "@ + row.deadline_type@,
            TaskDecoding::BadEnergyLevel => r matches Err(StoreError::Backend(m)) && row.energy_level
                matches Some(e) && m@ == "unknown energy level: "@ + e@,
            TaskDecoding::BadTags => r matches Err(StoreError::Backend(m)) && has_prefix(
                m@,
                "failed to decode tags: "@,
            ),
        },
{
    let status = parse_status(row.status.as_str())?;
    let priority = parse_priority(row.priority.as_str())?;
    let deadline_type = parse_deadline_type(row.deadline_type.as_str())?;
    let energy_level = match &row.energy_level {
        Some(e) => Some(parse_energy_level(e.as_str())?),
        None => None,
    };
    let tags = match json_decode_strings(row.tags_json.as_str()) {
        Ok(tags) => tags,
        Err(error) => {
            let prefix = String::from_str("failed to decode tags: ");
            let mut m = String::from_str("failed to decode tags: ");
            m.append(error.to_string().as_str());
            assert(m@.subrange(0, prefix@.len() as int) =~= prefix@);
            return Err(StoreError::Backend(m));
        },
    };
    let scheduled = match (row.scheduled_start_ms, row.scheduled_end_ms) {
        (Some(start_ms), Some(end_ms)) => Some(TimeBlock { start_ms, end_ms }),
        _ => None,
    };
    Ok(
        Task {
            id: row.id.clone(),
            title: row.title.clone(),
            notes: clone_opt_string(&row.notes),
            status,
            priority,
            due_at_ms: row.due_at_ms,
            deadline_type,
            scheduled,
            estimate_minutes: row.estimate_minutes,
            energy_level,
            context: clone_opt_string(&row.context),
            tags,
            project_id: clone_opt_string(&row.project_id),
            created_at_ms: row.created_at_ms,
            updated_at_ms: row.updated_at_ms,
            completed_at_ms: row.completed_at_ms,
            sort_order: row.sort_order,
        },
    )
}

/// Reading back the row written for a task gives the task, provided `serde_json` reads back
/// the tag array it wrote.
pub proof fn lemma_task_row_round_trip(t: TaskView)
    requires
        json_parse_string_array(json_string_array(t.tags)) == Some(t.tags),
    ensures
        decode_task(encode_task(t)) == TaskDecoding::Decoded(t),
{
    reveal_strlit("Inbox");
    reveal_strlit("Planned");
    reveal_strlit("InProgress");
    reveal_strlit("Done");
    reveal_strlit("Canceled");
    reveal_strlit("Low");
    reveal_strlit("Normal");
    reveal_strlit("High");
    reveal_strlit("Urgent");
    reveal_strlit("None");
    reveal_strlit("Soft");
    reveal_strlit("Hard");
    reveal_strlit("Medium");
    assert("Inbox"@.len() == 5);
    assert("Planned"@.len() == 7);
    assert("InProgress"@.len() == 10);
    assert("Done"@.len() == 4);
    assert("Canceled"@.len() == 8);
    assert("Low"@.len() == 3);
    assert("Normal"@.len() == 6);
    assert("High"@.len() == 4);
    assert("Urgent"@.len() == 6);
    assert("None"@.len() == 4);
    assert("Soft"@.len() == 4);
    assert("Hard"@.len() == 4);
    assert("Medium"@.len() == 6);
    assert("Normal"@[0] != "Urgent"@[0]);
    assert("None"@[0] != "Soft"@[0]);
    assert("None"@[0] != "Hard"@[0]);
    assert("Soft"@[0] != "Hard"@[0]);
    match t.status {
        TaskStatus::Inbox => {},
        TaskStatus::Planned => { assert("Planned"@ != "Inbox"@); },
        TaskStatus::InProgress => { assert("InProgress"@ != "Inbox"@); assert("InProgress"@ != "Planned"@); },
        TaskStatus::Done => { assert("Done"@ != "Inbox"@); assert("Done"@ != "Planned"@); assert("Done"@ != "InProgress"@); },
        TaskStatus::Canceled => { assert("Canceled"@ != "Inbox"@); assert("Canceled"@ != "Planned"@); assert("Canceled"@ != "InProgress"@); assert("Canceled"@ != "Done"@); },
    }
    match t.priority {
        Priority::Low => {},
        Priority::Normal => { assert("Normal"@ != "Low"@); },
        Priority::High => { assert("High"@ != "Low"@); assert("High"@ != "Normal"@); },
        Priority::Urgent => { assert("Urgent"@ != "Low"@); assert("Urgent"@ != "Normal"@); assert("Urgent"@ != "High"@); },
    }
    match t.deadline_type {
        DeadlineType::NoDeadline => {},
        DeadlineType::Soft => { assert("Soft"@ != "None"@); },
        DeadlineType::Hard => { assert("Hard"@ != "None"@); assert("Hard"@ != "Soft"@); },
    }
    assert(parse_status_spec(status_name(t.status)) == Some(t.status));
    assert(parse_priority_spec(priority_name(t.priority)) == Some(t.priority));
    assert(parse_deadline_type_spec(deadline_type_name(t.deadline_type)) == Some(t.deadline_type));
    match t.energy_level {
        Some(e) => {
            match e {
                EnergyLevel::Low => {},
                EnergyLevel::Medium => { assert("Medium"@ != "Low"@); },
                EnergyLevel::High => { assert("High"@ != "Low"@); assert("High"@ != "Medium"@); },
            }
            assert(parse_energy_level_spec(energy_level_name(e)) == Some(e));
        },
        None => {},
    }
    assert(decode_energy(encode_task(t).energy_level) == Some(t.energy_level));
    let d = decode_task(encode_task(t));
    match d {
        TaskDecoding::Decoded(u) => {
            assert(u.scheduled == t.scheduled);
            assert(u == t);
        },
        _ => {},
    }
}

/// The column values of one external link in the database.
#[derive(Debug, PartialEq, Eq)]
pub struct LinkRow {
    pub id: String,
    pub task_id: String,
    pub provider: String,
    pub external_id: Option<String>,
    pub external_path: Option<String>,
    pub last_synced_at_ms: Option<i64>,
    pub sync_hash: Option<String>,
    pub sync_state: String,
}

pub struct LinkRowView {
    pub id: Seq<char>,
    pub task_id: Seq<char>,
    pub provider: Seq<char>,
    pub external_id: Option<Seq<char>>,
    pub external_path: Option<Seq<char>>,
    pub last_synced_at_ms: Option<i64>,
    pub sync_hash: Option<Seq<char>>,
    pub sync_state: Seq<char>,
}

impl View for LinkRow {
    type V = LinkRowView;

    open spec fn view(&self) -> LinkRowView {
        LinkRowView {
            id: self.id@,
            task_id: self.task_id@,
            provider: self.provider@,
            external_id: opt_str_view(self.external_id),
            external_path: opt_str_view(self.external_path),
            last_synced_at_ms: self.last_synced_at_ms,
            sync_hash: opt_str_view(self.sync_hash),
            sync_state: self.sync_state@,
        }
    }
}

pub open spec fn encode_link(l: LinkView) -> LinkRowView {
    LinkRowView {
        id: l.id,
        task_id: l.task_id,
        provider: provider_name(l.provider),
        external_id: l.external_id,
        external_path: l.external_path,
        last_synced_at_ms: l.last_synced_at_ms,
        sync_hash: l.sync_hash,
        sync_state: sync_state_name(l.sync_state),
    }
}

/// The link a row holds, or `None` when its sync state is not one the store writes.
pub open spec fn decode_link(r: LinkRowView) -> Option<LinkView> {
    match parse_sync_state_spec(r.sync_state) {
        Some(sync_state) => Some(
            LinkView {
                id: r.id,
                task_id: r.task_id,
                provider: parse_provider_spec(r.provider),
                external_id: r.external_id,
                external_path: r.external_path,
                last_synced_at_ms: r.last_synced_at_ms,
                sync_hash: r.sync_hash,
                sync_state,
            },
        ),
        None => None,
    }
}

pub fn link_row(link: &ExternalLink) -> (r: LinkRow)
    ensures
        r@ == encode_link(link@),
{
    LinkRow {
        id: link.id.clone(),
        task_id: link.task_id.clone(),
        provider: String::from_str(external_provider_to_str(&link.provider)),
        external_id: clone_opt_string(&link.external_id),
        external_path: clone_opt_string(&link.external_path),
        last_synced_at_ms: link.last_synced_at_ms,
        sync_hash: clone_opt_string(&link.sync_hash),
        sync_state: String::from_str(sync_state_to_str(&link.sync_state)),
    }
}

pub fn external_link_from_row(row: &LinkRow) -> (r: Result<ExternalLink, StoreError>)
    ensures
        match decode_link(row@) {
            Some(l) => r matches Ok(link) && link@ == l,
            None => r matches Err(StoreError::Backend(m)) && m@ == "unknown sync state: "@
                + row.sync_state@,
        },
{
    let sync_state = parse_sync_state(row.sync_state.as_str())?;
    Ok(
        ExternalLink {
            id: row.id.clone(),
            task_id: row.task_id.clone(),
            provider: parse_external_provider(row.provider.as_str()),
            external_id: clone_opt_string(&row.external_id),
            external_path: clone_opt_string(&row.external_path),
            last_synced_at_ms: row.last_synced_at_ms,
            sync_hash: clone_opt_string(&row.sync_hash),
            sync_state,
        },
    )
}

/// Reading back the row written for a link gives the link, unless its provider is an
/// `Other` whose name is that of a built-in provider.
pub proof fn lemma_link_row_round_trip(l: LinkView)
    requires
        l.provider matches ProviderView::Other(name) ==> name != "TaskNotes"@ && name
            != "Calendar"@ && name != "Llm"@,
    ensures
        decode_link(encode_link(l)) == Some(l),
{
    reveal_strlit("TaskNotes");
    reveal_strlit("Calendar");
    reveal_strlit("Llm");
    reveal_strlit("Linked");
    reveal_strlit("PendingLocalCreate");
    reveal_strlit("PendingLocalUpdate");
    reveal_strlit("PendingRemoteUpdate");
    reveal_strlit("Conflict");
    reveal_strlit("DeletedRemote");
    assert("TaskNotes"@.len() == 9);
    assert("Calendar"@.len() == 8);
    assert("Llm"@.len() == 3);
    assert("Linked"@.len() == 6);
    assert("PendingLocalCreate"@.len() == 18);
    assert("PendingLocalUpdate"@.len() == 18);
    assert("PendingRemoteUpdate"@.len() == 19);
    assert("Conflict"@.len() == 8);
    assert("DeletedRemote"@.len() == 13);
    assert("PendingLocalCreate"@[12] != "PendingLocalUpdate"@[12]);
    match l.provider {
        ProviderView::TaskNotes => {},
        ProviderView::Calendar => { assert("Calendar"@ != "TaskNotes"@); },
        ProviderView::Llm => { assert("Llm"@ != "TaskNotes"@); assert("Llm"@ != "Calendar"@); },
        ProviderView::Other(_) => {},
    }
    match l.sync_state {
        SyncState::Linked => {},
        SyncState::PendingLocalCreate => { assert("PendingLocalCreate"@ != "Linked"@); },
        SyncState::PendingLocalUpdate => {
            assert("PendingLocalUpdate"@ != "Linked"@);
            assert("PendingLocalUpdate"@ != "PendingLocalCreate"@);
        },
        SyncState::PendingRemoteUpdate => {
            assert("PendingRemoteUpdate"@ != "Linked"@);
            assert("PendingRemoteUpdate"@ != "PendingLocalCreate"@);
            assert("PendingRemoteUpdate"@ != "PendingLocalUpdate"@);
        },
        SyncState::Conflict => {
            assert("Conflict"@ != "Linked"@);
            assert("Conflict"@ != "PendingLocalCreate"@);
            assert("Conflict"@ != "PendingLocalUpdate"@);
            assert("Conflict"@ != "PendingRemoteUpdate"@);
        },
        SyncState::DeletedRemote => {
            assert("DeletedRemote"@ != "Linked"@);
            assert("DeletedRemote"@ != "PendingLocalCreate"@);
            assert("DeletedRemote"@ != "PendingLocalUpdate"@);
            assert("DeletedRemote"@ != "PendingRemoteUpdate"@);
            assert("DeletedRemote"@ != "Conflict"@);
        },
    }
    assert(parse_provider_spec(provider_name(l.provider)) == l.provider);
    assert(parse_sync_state_spec(sync_state_name(l.sync_state)) == Some(l.sync_state));
}

} // verus!
