//! Core task and scheduling types.
use vstd::prelude::*;

verus! {

pub type TaskId = String;

pub type ProjectId = String;

pub type TimestampMs = i64;

#[derive(Debug, Clone, Copy, PartialEq, Eq, Structural)]
pub enum TaskStatus {
    Inbox,
    Planned,
    InProgress,
    Done,
    Canceled,
}

#[derive(Debug, Clone, Copy, PartialEq, Eq, Structural)]
pub enum Priority {
    Low,
    Normal,
    High,
    Urgent,
}

#[derive(Debug, Clone, Copy, PartialEq, Eq, Structural)]
pub enum DeadlineType {
    NoDeadline,
    Soft,
    Hard,
}

#[derive(Debug, Clone, Copy, PartialEq, Eq, Structural)]
pub enum EnergyLevel {
    Low,
    Medium,
    High,
}

#[derive(Debug, Clone, Copy, PartialEq, Eq, Structural)]
pub struct TimeBlock {
    pub start_ms: TimestampMs,
    pub end_ms: TimestampMs,
}

/// Two blocks overlap when each starts before the other ends.
pub open spec fn blocks_overlap(a: TimeBlock, b: TimeBlock) -> bool {
    a.start_ms < b.end_ms && b.start_ms < a.end_ms
}

impl TimeBlock {
    /// Whole minutes between start and end, truncated toward zero as Rust's `/` does.
    pub open spec fn spec_duration_minutes(self) -> int {
        let d = self.end_ms - self.start_ms;
        if d >= 0 {
            d / 60_000
        } else {
            -((-d) / 60_000)
        }
    }

    pub fn duration_minutes(&self) -> (minutes: i64)
        requires
            i64::MIN <= self.end_ms - self.start_ms <= i64::MAX,
        ensures
            minutes == self.spec_duration_minutes(),
    {
        (self.end_ms - self.start_ms) / 60_000
    }

    pub fn overlaps(&self, other: &TimeBlock) -> (r: bool)
        ensures
            r == blocks_overlap(*self, *other),
    {
        self.start_ms < other.end_ms && other.start_ms < self.end_ms
    }
}


pub open spec fn opt_str_view(o: Option<String>) -> Option<Seq<char>> {
    match o {
        Some(s) => Some(s@),
        None => None,
    }
}

pub open spec fn strs_view(v: Seq<String>) -> Seq<Seq<char>> {
    v.map_values(|s: String| s@)
}

pub fn clone_opt_string(o: &Option<String>) -> (r: Option<String>)
    ensures
        opt_str_view(r) == opt_str_view(*o),
{
    match o {
        Some(s) => Some(s.clone()),
        None => None,
    }
}

pub fn clone_strings(v: &Vec<String>) -> (r: Vec<String>)
    ensures
        strs_view(r@) == strs_view(v@),
        r@.len() == v@.len(),
{
    let mut r: Vec<String> = Vec::new();
    for i in 0..v.len()
        invariant
            r@.len() == i,
            forall|j: int| 0 <= j < i ==> #[trigger] r@[j]@ == v@[j]@,
    {
        r.push(v[i].clone());
    }
    assert(strs_view(r@) =~= strs_view(v@));
    r
}

#[derive(Debug, PartialEq, Eq)]
pub struct Task {
    pub id: TaskId,
    pub title: String,
    pub notes: Option<String>,
    pub status: TaskStatus,
    pub priority: Priority,
    pub due_at_ms: Option<TimestampMs>,
    pub deadline_type: DeadlineType,
    pub scheduled: Option<TimeBlock>,
    pub estimate_minutes: Option<i64>,
    pub energy_level: Option<EnergyLevel>,
    pub context: Option<String>,
    pub tags: Vec<String>,
    pub project_id: Option<ProjectId>,
    pub created_at_ms: TimestampMs,
    pub updated_at_ms: TimestampMs,
    pub completed_at_ms: Option<TimestampMs>,
    pub sort_order: i64,
}

/// The mathematical value of a task: strings as character sequences.
pub struct TaskView {
    pub id: Seq<char>,
    pub title: Seq<char>,
    pub notes: Option<Seq<char>>,
    pub status: TaskStatus,
    pub priority: Priority,
    pub due_at_ms: Option<TimestampMs>,
    pub deadline_type: DeadlineType,
    pub scheduled: Option<TimeBlock>,
    pub estimate_minutes: Option<i64>,
    pub energy_level: Option<EnergyLevel>,
    pub context: Option<Seq<char>>,
    pub tags: Seq<Seq<char>>,
    pub project_id: Option<Seq<char>>,
    pub created_at_ms: TimestampMs,
    pub updated_at_ms: TimestampMs,
    pub completed_at_ms: Option<TimestampMs>,
    pub sort_order: i64,
}

impl View for Task {
    type V = TaskView;

    open spec fn view(&self) -> TaskView {
        TaskView {
            id: self.id@,
            title: self.title@,
            notes: opt_str_view(self.notes),
            status: self.status,
            priority: self.priority,
            due_at_ms: self.due_at_ms,
            deadline_type: self.deadline_type,
            scheduled: self.scheduled,
            estimate_minutes: self.estimate_minutes,
            energy_level: self.energy_level,
            context: opt_str_view(self.context),
            tags: strs_view(self.tags@),
            project_id: opt_str_view(self.project_id),
            created_at_ms: self.created_at_ms,
            updated_at_ms: self.updated_at_ms,
            completed_at_ms: self.completed_at_ms,
            sort_order: self.sort_order,
        }
    }
}

impl Clone for Task {
    fn clone(&self) -> (r: Task)
        ensures
            r@ == self@,
    {
        Task {
            id: self.id.clone(),
            title: self.title.clone(),
            notes: clone_opt_string(&self.notes),
            status: self.status,
            priority: self.priority,
            due_at_ms: self.due_at_ms,
            deadline_type: self.deadline_type,
            scheduled: self.scheduled,
            estimate_minutes: self.estimate_minutes,
            energy_level: self.energy_level,
            context: clone_opt_string(&self.context),
            tags: clone_strings(&self.tags),
            project_id: clone_opt_string(&self.project_id),
            created_at_ms: self.created_at_ms,
            updated_at_ms: self.updated_at_ms,
            completed_at_ms: self.completed_at_ms,
            sort_order: self.sort_order,
        }
    }
}

} // verus!
