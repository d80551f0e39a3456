//! The task edits behind the desktop app's commands: creating, updating and completing tasks.
use crate::codec::has_prefix;
use crate::task::{
    clone_opt_string, opt_str_view, DeadlineType, Priority, Task, TaskStatus, TaskView,
};
use crate::text::{copy_range, str_chars, string_from_chars, strip, strip_range, Trimmed};
use vstd::prelude::*;

verus! {

#[derive(Debug, Clone, PartialEq, Eq)]
pub struct CreateTaskInput {
    pub title: String,
    pub notes: Option<String>,
    pub priority: Option<Priority>,
    pub due_at_ms: Option<i64>,
    pub project_id: Option<String>,
}

#[derive(Debug, Clone, PartialEq, Eq)]
pub struct UpdateTaskInput {
    pub id: String,
    pub title: Option<String>,
    pub notes: Option<Option<String>>,
    pub priority: Option<Priority>,
    pub due_at_ms: Option<Option<i64>>,
    pub project_id: Option<Option<String>>,
}

pub open spec fn digit_char(d: int) -> char {
    ((48 + d) as u8) as char
}

/// Decimal digits of a natural number, most significant first.
pub open spec fn decimal_nat(n: nat) -> Seq<char>
    decreases n,
{
    if n < 10 {
        seq![digit_char(n as int)]
    } else {
        decimal_nat(n / 10).push(digit_char((n % 10) as int))
    }
}

/// An integer as `Display` writes it: a minus sign for negatives, then the digits.
pub open spec fn decimal_int(n: int) -> Seq<char> {
    if n < 0 {
        seq!['-'] + decimal_nat((-n) as nat)
    } else {
        decimal_nat(n as nat)
    }
}

fn push_decimal(out: &mut Vec<char>, n: u64)
    ensures
        final(out)@ == old(out)@ + decimal_nat(n as nat),
    decreases n,
{
    let ghost start = out@;
    if n >= 10 {
        push_decimal(out, n / 10);
    }
    let d = (n % 10) as u8;
    out.push((48 + d) as char);
    proof {
        if n >= 10 {
            assert(out@ =~= start + decimal_nat(n as nat));
        } else {
            assert(out@ =~= start + decimal_nat(n as nat));
        }
    }
}

fn push_decimal_i64(out: &mut Vec<char>, n: i64)
    ensures
        final(out)@ == old(out)@ + decimal_int(n as int),
{
    if n < 0 {
        out.push('-');
        let magnitude: u64 = if n == i64::MIN {
            9_223_372_036_854_775_808
        } else {
            (-n) as u64
        };
        let ghost mid = out@;
        push_decimal(out, magnitude);
        assert(out@ =~= old(out)@ + decimal_int(n as int));
    } else {
        push_decimal(out, n as u64);
    }
}

/// The id of a task created at `now_ms` as the `sequence`-th of this session.
pub open spec fn created_task_id(now_ms: i64, sequence: u64) -> Seq<char> {
    seq!['t', 'a', 's', 'k', '-'] + decimal_int(now_ms as int) + seq!['-'] + decimal_nat(
        sequence as nat,
    )
}

pub fn task_id_for(now_ms: i64, sequence: u64) -> (r: String)
    ensures
        r@ == created_task_id(now_ms, sequence),
{
    let mut chars: Vec<char> = vec!['t', 'a', 's', 'k', '-'];
    push_decimal_i64(&mut chars, now_ms);
    chars.push('-');
    push_decimal(&mut chars, sequence);
    assert(chars@ =~= created_task_id(now_ms, sequence));
    string_from_chars(chars.as_slice())
}

fn trimmed(s: &str) -> (r: String)
    ensures
        r@ == strip(s@, Trimmed::WhiteSpace),
{
    let chars = str_chars(s);
    let (a, b) = strip_range(&chars, 0, chars.len(), Trimmed::WhiteSpace);
    assert(chars@.subrange(0, chars@.len() as int) =~= chars@);
    let kept = copy_range(&chars, a, b);
    string_from_chars(kept.as_slice())
}

pub fn non_empty_string(value: String) -> (r: Option<String>)
    ensures
        opt_str_view(r) == if value@.len() == 0 {
            None
        } else {
            Some(value@)
        },
{
    if value.as_str().unicode_len() == 0 {
        None
    } else {
        Some(value)
    }
}

/// Notes as an edit leaves them: trimmed, and none when nothing is left.
pub open spec fn edited_notes(notes: Option<Seq<char>>) -> Option<Seq<char>> {
    match notes {
        Some(n) => {
            let t = strip(n, Trimmed::WhiteSpace);
            if t.len() == 0 {
                None
            } else {
                Some(t)
            }
        },
        None => None,
    }
}

fn edit_notes(notes: &Option<String>) -> (r: Option<String>)
    ensures
        opt_str_view(r) == edited_notes(opt_str_view(*notes)),
{
    match notes {
        Some(n) => non_empty_string(trimmed(n.as_str())),
        None => None,
    }
}

pub open spec fn title_required() -> Seq<char> {
    "Task title is required."@
}

/// The task a create command makes, or `None` when the trimmed title is empty.
pub open spec fn created_task(
    title: Seq<char>,
    notes: Option<Seq<char>>,
    priority: Option<Priority>,
    due_at_ms: Option<i64>,
    project_id: Option<Seq<char>>,
    now_ms: i64,
    sequence: u64,
) -> Option<TaskView> {
    let t = strip(title, Trimmed::WhiteSpace);
    if t.len() == 0 {
        None
    } else {
        Some(
            TaskView {
                id: created_task_id(now_ms, sequence),
                title: t,
                notes: edited_notes(notes),
                status: TaskStatus::Inbox,
                priority: match priority {
                    Some(p) => p,
                    None => Priority::Normal,
                },
                due_at_ms,
                deadline_type: DeadlineType::NoDeadline,
                scheduled: None,
                estimate_minutes: None,
                energy_level: None,
                context: None,
                tags: seq![],
                project_id,
                created_at_ms: now_ms,
                updated_at_ms: now_ms,
                completed_at_ms: None,
                sort_order: now_ms,
            },
        )
    }
}

/// The check a create command makes before anything else: the title must not trim to
/// nothing.
pub fn check_new_task_title(title: &str) -> (r: Result<(), String>)
    ensures
        strip(title@, Trimmed::WhiteSpace).len() == 0 <==> r is Err,
        r matches Err(m) ==> m@ == title_required(),
{
    if trimmed(title).as_str().unicode_len() == 0 {
        Err(String::from_str("Task title is required."))
    } else {
        Ok(())
    }
}

/// The task that creating from the input at `now_ms` as the `sequence`-th task gives.
pub fn new_task_from_input(input: &CreateTaskInput, now_ms: i64, sequence: u64) -> (r: Result<
    Task,
    String,
>)
    ensures
        match created_task(
            input.title@,
            opt_str_view(input.notes),
            input.priority,
            input.due_at_ms,
            opt_str_view(input.project_id),
            now_ms,
            sequence,
        ) {
            Some(t) => r matches Ok(task) && task@ == t,
            None => r matches Err(m) && m@ == title_required(),
        },
{
    let title = trimmed(input.title.as_str());
    if title.as_str().unicode_len() == 0 {
        return Err(String::from_str("Task title is required."));
    }
    let task = Task {
        id: task_id_for(now_ms, sequence),
        title,
        notes: edit_notes(&input.notes),
        status: TaskStatus::Inbox,
        priority: match input.priority {
            Some(p) => p,
            None => Priority::Normal,
        },
        due_at_ms: input.due_at_ms,
        deadline_type: DeadlineType::NoDeadline,
        scheduled: None,
        estimate_minutes: None,
        energy_level: None,
        context: None,
        tags: Vec::new(),
        project_id: clone_opt_string(&input.project_id),
        created_at_ms: now_ms,
        updated_at_ms: now_ms,
        completed_at_ms: None,
        sort_order: now_ms,
    };
    assert(task@.tags =~= Seq::<Seq<char>>::empty());
    Ok(task)
}

pub open spec fn opt_opt_str_view(o: Option<Option<String>>) -> Option<Option<Seq<char>>> {
    match o {
        Some(inner) => Some(opt_str_view(inner)),
        None => None,
    }
}

/// The task an update leaves, or `None` when a given title trims to nothing. Each field
/// present in the update replaces the task's; notes are trimmed and emptied to none.
pub open spec fn updated_task(
    t: TaskView,
    title: Option<Seq<char>>,
    notes: Option<Option<Seq<char>>>,
    priority: Option<Priority>,
    due_at_ms: Option<Option<i64>>,
    project_id: Option<Option<Seq<char>>>,
    now_ms: i64,
) -> Option<TaskView> {
    if title matches Some(x) && strip(x, Trimmed::WhiteSpace).len() == 0 {
        None
    } else {
        Some(
            TaskView {
                title: match title {
                    Some(x) => strip(x, Trimmed::WhiteSpace),
                    None => t.title,
                },
                notes: match notes {
                    Some(n) => edited_notes(n),
                    None => t.notes,
                },
                priority: match priority {
                    Some(p) => p,
                    None => t.priority,
                },
                due_at_ms: match due_at_ms {
                    Some(d) => d,
                    None => t.due_at_ms,
                },
                project_id: match project_id {
                    Some(p) => p,
                    None => t.project_id,
                },
                updated_at_ms: now_ms,
                ..t
            },
        )
    }
}

pub fn apply_task_update(task: Task, input: &UpdateTaskInput, now_ms: i64) -> (r: Result<
    Task,
    String,
>)
    ensures
        match updated_task(
            task@,
            opt_str_view(input.title),
            opt_opt_str_view(input.notes),
            input.priority,
            input.due_at_ms,
            opt_opt_str_view(input.project_id),
            now_ms,
        ) {
            Some(t) => r matches Ok(updated) && updated@ == t,
            None => r matches Err(m) && m@ == title_required(),
        },
{
    let mut task = task;
    if let Some(title) = &input.title {
        let title = trimmed(title.as_str());
        if title.as_str().unicode_len() == 0 {
            return Err(String::from_str("Task title is required."));
        }
        task.title = title;
    }
    if let Some(notes) = &input.notes {
        task.notes = edit_notes(notes);
    }
    if let Some(priority) = input.priority {
        task.priority = priority;
    }
    if let Some(due_at_ms) = input.due_at_ms {
        task.due_at_ms = due_at_ms;
    }
    if let Some(project_id) = &input.project_id {
        task.project_id = clone_opt_string(project_id);
    }
    task.updated_at_ms = now_ms;
    Ok(task)
}

/// The task the store returned for `id`, or the command's error when there is none.
pub fn task_or_not_found(id: &str, found: Option<Task>) -> (r: Result<Task, String>)
    ensures
        match found {
            Some(t) => r == Ok::<Task, String>(t),
            None => r matches Err(m) && m@ == "Task not found: "@ + id@,
        },
{
    match found {
        Some(task) => Ok(task),
        None => {
            let mut message = String::from_str("Task not found: ");
            message.append(id);
            Err(message)
        },
    }
}

/// A task marked done at `now_ms`.
pub fn mark_task_done(task: Task, now_ms: i64) -> (r: Task)
    ensures
        r@ == (TaskView {
            status: TaskStatus::Done,
            updated_at_ms: now_ms,
            completed_at_ms: Some(now_ms),
            ..task@
        }),
{
    let mut task = task;
    task.status = TaskStatus::Done;
    task.updated_at_ms = now_ms;
    task.completed_at_ms = Some(now_ms);
    task
}

/// Milliseconds since the Unix epoch, or the error text when the clock reads earlier.
pub fn now_ms() -> (r: Result<i64, String>)
    ensures
        r matches Err(m) ==> has_prefix(m@, "System clock is before Unix epoch: "@),
{
    match crate::clock::unix_millis() {
        Ok(ms) => Ok(ms),
        Err(text) => {
            let mut m = String::from_str("System clock is before Unix epoch: ");
            let ghost prefix = m@;
            m.append(text.as_str());
            assert(m@.subrange(0, prefix.len() as int) =~= prefix);
            Err(m)
        },
    }
}

/// A created task takes the input's priority when one is given, and is Normal only when none
/// is; it is new in the inbox, with the input's due date and project, created now. Creating
/// fails exactly when the title trims to nothing.
pub proof fn lemma_created_task_takes_given_fields(
    title: Seq<char>,
    notes: Option<Seq<char>>,
    priority: Option<Priority>,
    due_at_ms: Option<i64>,
    project_id: Option<Seq<char>>,
    now_ms: i64,
    sequence: u64,
)
    ensures
        created_task(title, notes, priority, due_at_ms, project_id, now_ms, sequence) is None
            <==> strip(title, Trimmed::WhiteSpace).len() == 0,
        created_task(title, notes, priority, due_at_ms, project_id, now_ms, sequence) matches Some(c)
            ==> {
            &&& priority matches Some(p) ==> c.priority == p
            &&& priority is None ==> c.priority == Priority::Normal
            &&& notes is None ==> c.notes is None
            &&& notes matches Some(n) ==> c.notes == (if strip(n, Trimmed::WhiteSpace).len() == 0 {
                None
            } else {
                Some(strip(n, Trimmed::WhiteSpace))
            })
            &&& c.title == strip(title, Trimmed::WhiteSpace)
            &&& c.status == TaskStatus::Inbox
            &&& c.due_at_ms == due_at_ms
            &&& c.project_id == project_id
            &&& c.created_at_ms == now_ms && c.updated_at_ms == now_ms
            &&& c.completed_at_ms is None
        },
{
}

/// An update sets every field it gives to the given value and keeps every field it leaves
/// out; it fails exactly when a given title trims to nothing.
pub proof fn lemma_update_sets_given_fields(
    t: TaskView,
    title: Option<Seq<char>>,
    notes: Option<Option<Seq<char>>>,
    priority: Option<Priority>,
    due_at_ms: Option<Option<i64>>,
    project_id: Option<Option<Seq<char>>>,
    now_ms: i64,
)
    ensures
        updated_task(t, title, notes, priority, due_at_ms, project_id, now_ms) is None <==> (
        title matches Some(x) && strip(x, Trimmed::WhiteSpace).len() == 0),
        updated_task(t, title, notes, priority, due_at_ms, project_id, now_ms) matches Some(u)
            ==> {
            &&& project_id matches Some(p) ==> u.project_id == p
            &&& project_id is None ==> u.project_id == t.project_id
            &&& priority matches Some(p) ==> u.priority == p
            &&& priority is None ==> u.priority == t.priority
            &&& due_at_ms matches Some(due) ==> u.due_at_ms == due
            &&& due_at_ms is None ==> u.due_at_ms == t.due_at_ms
            &&& title matches Some(x) ==> u.title == strip(x, Trimmed::WhiteSpace)
            &&& title is None ==> u.title == t.title
            &&& notes matches Some(None) ==> u.notes is None
            &&& notes matches Some(Some(n)) ==> u.notes == (if strip(n, Trimmed::WhiteSpace).len()
                == 0 {
                None
            } else {
                Some(strip(n, Trimmed::WhiteSpace))
            })
            &&& notes is None ==> u.notes == t.notes
            &&& u.updated_at_ms == now_ms
            &&& u.id == t.id && u.status == t.status && u.created_at_ms == t.created_at_ms
                && u.completed_at_ms == t.completed_at_ms && u.sort_order == t.sort_order
        },
{
}

} // verus!
