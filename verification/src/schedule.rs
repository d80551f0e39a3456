//! Greedy placement of tasks into free calendar time.
use crate::task::{strs_view, blocks_overlap, Priority, Task, TaskId, TaskView, TimeBlock};
use vstd::prelude::*;

verus! {

#[derive(Debug, PartialEq, Eq)]
pub struct CalendarBusyBlock {
    pub source: String,
    pub block: TimeBlock,
}

#[derive(Debug, PartialEq, Eq)]
pub struct ScheduleRequest {
    pub tasks: Vec<Task>,
    pub busy: Vec<CalendarBusyBlock>,
    pub candidate_blocks: Vec<TimeBlock>,
}

#[derive(Debug, PartialEq, Eq)]
pub struct ScheduledTask {
    pub task_id: TaskId,
    pub block: TimeBlock,
    pub reason: String,
}

#[derive(Debug, PartialEq, Eq)]
pub struct SchedulePlan {
    pub scheduled: Vec<ScheduledTask>,
    pub unscheduled_task_ids: Vec<TaskId>,
}

/// Largest magnitude of a timestamp the scheduler accepts, so that no sum it forms overflows.
pub const TIME_BOUND: i64 = 0x3fff_ffff_ffff_ffff;

/// Largest estimate, in minutes, whose length in milliseconds stays within `2^62`.
pub const MAX_ESTIMATE_MINUTES: i64 = 76_861_433_640_456;

pub open spec fn time_in_bounds(t: i64) -> bool {
    -TIME_BOUND <= t <= TIME_BOUND
}

pub open spec fn block_in_bounds(b: TimeBlock) -> bool {
    time_in_bounds(b.start_ms) && time_in_bounds(b.end_ms)
}

pub open spec fn blocks_in_bounds(bs: Seq<TimeBlock>) -> bool {
    forall|i: int| 0 <= i < bs.len() ==> #[trigger] block_in_bounds(bs[i])
}

pub open spec fn busy_blocks(busy: Seq<CalendarBusyBlock>) -> Seq<TimeBlock> {
    busy.map_values(|b: CalendarBusyBlock| b.block)
}

/// The inputs on which the scheduler's millisecond arithmetic cannot overflow.
pub open spec fn request_in_bounds(r: ScheduleRequest) -> bool {
    &&& blocks_in_bounds(busy_blocks(r.busy@))
    &&& blocks_in_bounds(r.candidate_blocks@)
    &&& forall|i: int|
        0 <= i < r.tasks@.len() ==> match #[trigger] r.tasks@[i].estimate_minutes {
            Some(e) => e <= MAX_ESTIMATE_MINUTES,
            None => true,
        }
}

pub open spec fn priority_rank_spec(p: Priority) -> int {
    match p {
        Priority::Low => 0,
        Priority::Normal => 1,
        Priority::High => 2,
        Priority::Urgent => 3,
    }
}

/// `None` sorts before any due date, as `Option`'s order does.
pub open spec fn due_before(a: Option<i64>, b: Option<i64>) -> bool {
    match (a, b) {
        (None, Some(_)) => true,
        (Some(x), Some(y)) => x < y,
        _ => false,
    }
}

/// The scheduler's sort key: higher priority first, then earlier due date, then earlier creation.
pub open spec fn schedule_key_lt(a: TaskView, b: TaskView) -> bool {
    ||| priority_rank_spec(a.priority) > priority_rank_spec(b.priority)
    ||| priority_rank_spec(a.priority) == priority_rank_spec(b.priority) && due_before(
        a.due_at_ms,
        b.due_at_ms,
    )
    ||| priority_rank_spec(a.priority) == priority_rank_spec(b.priority) && a.due_at_ms
        == b.due_at_ms && a.created_at_ms < b.created_at_ms
}

pub open spec fn schedule_key_eq(a: TaskView, b: TaskView) -> bool {
    priority_rank_spec(a.priority) == priority_rank_spec(b.priority) && a.due_at_ms == b.due_at_ms
        && a.created_at_ms == b.created_at_ms
}

/// Task `i` is considered before task `j`: a stable sort by the key.
pub open spec fn considered_before(tasks: Seq<Task>, i: int, j: int) -> bool {
    schedule_key_lt(tasks[i]@, tasks[j]@) || (schedule_key_eq(tasks[i]@, tasks[j]@) && i < j)
}

/// `order` lists every task index once, in the order of a stable sort by the scheduling key.
pub open spec fn is_schedule_order(tasks: Seq<Task>, order: Seq<usize>) -> bool {
    &&& order.len() == tasks.len()
    &&& forall|k: int| 0 <= k < order.len() ==> #[trigger] order[k] < tasks.len()
    &&& forall|k: int, l: int|
        0 <= k < l < order.len() ==> considered_before(
            tasks,
            #[trigger] order[k] as int,
            #[trigger] order[l] as int,
        )
}

/// The estimate the scheduler uses: 30 minutes when none is given, and never less than 5.
pub open spec fn planned_minutes(t: TaskView) -> int {
    match t.estimate_minutes {
        Some(e) => if e < 5 {
            5
        } else {
            e as int
        },
        None => 30,
    }
}

/// Slot `[s, s + d)` lies inside the candidate and overlaps no occupied block.
pub open spec fn slot_is_free(cand: TimeBlock, occ: Seq<TimeBlock>, d: int, s: int) -> bool {
    &&& cand.start_ms <= s
    &&& s + d <= cand.end_ms
    &&& forall|i: int|
        0 <= i < occ.len() ==> !(s < #[trigger] occ[i].end_ms && occ[i].start_ms < s + d)
}

pub open spec fn is_earliest_slot(cand: TimeBlock, occ: Seq<TimeBlock>, d: int, s: int) -> bool {
    slot_is_free(cand, occ, d, s) && forall|t: int| t < s ==> !#[trigger] slot_is_free(
        cand,
        occ,
        d,
        t,
    )
}

/// The earliest free slot of length `d` in the candidate, if there is one.
pub open spec fn earliest_slot(cand: TimeBlock, occ: Seq<TimeBlock>, d: int) -> Option<TimeBlock> {
    if exists|s: int| is_earliest_slot(cand, occ, d, s) {
        let s = choose|s: int| is_earliest_slot(cand, occ, d, s);
        Some(TimeBlock { start_ms: s as i64, end_ms: (s + d) as i64 })
    } else {
        None
    }
}

/// The earliest slot in the first candidate block that has room.
pub open spec fn place_task(cands: Seq<TimeBlock>, occ: Seq<TimeBlock>, d: int) -> Option<
    TimeBlock,
>
    decreases cands.len(),
{
    if cands.len() == 0 {
        None
    } else {
        match earliest_slot(cands[0], occ, d) {
            Some(b) => Some(b),
            None => place_task(cands.drop_first(), occ, d),
        }
    }
}

pub struct GreedyOutcome {
    pub scheduled: Seq<(Seq<char>, TimeBlock)>,
    pub unscheduled: Seq<Seq<char>>,
    pub occupied: Seq<TimeBlock>,
}

/// Tasks taken in order, each placed at the earliest room left by the busy blocks and by
/// the tasks placed before it.
pub open spec fn greedy_outcome(
    ordered: Seq<TaskView>,
    cands: Seq<TimeBlock>,
    busy: Seq<TimeBlock>,
) -> GreedyOutcome
    decreases ordered.len(),
{
    if ordered.len() == 0 {
        GreedyOutcome { scheduled: seq![], unscheduled: seq![], occupied: busy }
    } else {
        let prev = greedy_outcome(ordered.drop_last(), cands, busy);
        let t = ordered.last();
        match place_task(cands, prev.occupied, planned_minutes(t) * 60_000) {
            Some(b) => GreedyOutcome {
                scheduled: prev.scheduled.push((t.id, b)),
                unscheduled: prev.unscheduled,
                occupied: prev.occupied.push(b),
            },
            None => GreedyOutcome {
                scheduled: prev.scheduled,
                unscheduled: prev.unscheduled.push(t.id),
                occupied: prev.occupied,
            },
        }
    }
}

pub open spec fn schedule_reason() -> Seq<char> {
    "Fits the earliest available block using priority order."@
}

pub open spec fn ordered_views(tasks: Seq<Task>, order: Seq<usize>) -> Seq<TaskView> {
    order.map_values(|u: usize| tasks[u as int]@)
}

/// The plan lists the outcome's placements (each with the fixed reason) and unplaced tasks.
pub open spec fn plan_matches(plan: SchedulePlan, out: GreedyOutcome) -> bool {
    &&& plan.scheduled@.len() == out.scheduled.len()
    &&& forall|i: int|
        0 <= i < out.scheduled.len() ==> {
            &&& (#[trigger] plan.scheduled@[i]).task_id@ == out.scheduled[i].0
            &&& plan.scheduled@[i].block == out.scheduled[i].1
            &&& plan.scheduled@[i].reason@ == schedule_reason()
        }
    &&& strs_view(plan.unscheduled_task_ids@) == out.unscheduled
}

pub trait Scheduler {
    fn propose_schedule(&self, request: ScheduleRequest) -> SchedulePlan
        requires
            request_in_bounds(request),
    ;
}

#[derive(Debug, Default, Clone, Copy)]
pub struct GreedyScheduler;

impl Scheduler for GreedyScheduler {
    fn propose_schedule(&self, request: ScheduleRequest) -> (plan: SchedulePlan)
        ensures
            exists|order: Seq<usize>|
                is_schedule_order(request.tasks@, order) && plan_matches(
                    plan,
                    greedy_outcome(
                        ordered_views(request.tasks@, order),
                        request.candidate_blocks@,
                        busy_blocks(request.busy@),
                    ),
                ),
    {
        let order = schedule_order(&request.tasks);
        let ghost tasks = request.tasks@;
        let ghost cands = request.candidate_blocks@;
        let ghost busy = busy_blocks(request.busy@);
        let ghost ordered = ordered_views(tasks, order@);
        let mut occupied: Vec<TimeBlock> = Vec::new();
        for i in 0..request.busy.len()
            invariant
                occupied@ == busy.take(i as int),
                busy == busy_blocks(request.busy@),
        {
            occupied.push(request.busy[i].block);
            assert(occupied@ =~= busy.take(i + 1));
        }
        assert(occupied@ =~= busy);
        let mut scheduled: Vec<ScheduledTask> = Vec::new();
        let mut unscheduled: Vec<TaskId> = Vec::new();
        assert(ordered.take(0) =~= Seq::<TaskView>::empty());
        assert(strs_view(unscheduled@) =~= Seq::<Seq<char>>::empty());
        for k in 0..order.len()
            invariant
                request_in_bounds(request),
                tasks == request.tasks@,
                cands == request.candidate_blocks@,
                busy == busy_blocks(request.busy@),
                is_schedule_order(tasks, order@),
                ordered == ordered_views(tasks, order@),
                blocks_in_bounds(occupied@),
                occupied@ == greedy_outcome(ordered.take(k as int), cands, busy).occupied,
                plan_matches(
                    SchedulePlan { scheduled, unscheduled_task_ids: unscheduled },
                    greedy_outcome(ordered.take(k as int), cands, busy),
                ),
        {
            let task = &request.tasks[order[k]];
            assert(ordered[k as int] == task@);
            let estimate: i64 = match task.estimate_minutes {
                Some(e) => if e < 5 {
                    5
                } else {
                    e
                },
                None => 30,
            };
            proof {
                assert(request.tasks@[order@[k as int] as int].estimate_minutes
                    == task.estimate_minutes);
            }
            let ghost prev = greedy_outcome(ordered.take(k as int), cands, busy);
            assert(ordered.take(k + 1).drop_last() =~= ordered.take(k as int));
            assert(ordered.take(k + 1).last() == task@);
            let placement = find_placement(&request.candidate_blocks, &occupied, estimate);
            match placement {
                Some(block) => {
                    occupied.push(block);
                    scheduled.push(
                        ScheduledTask {
                            task_id: task.id.clone(),
                            block,
                            reason: String::from_str(
                                "Fits the earliest available block using priority order.",
                            ),
                        },
                    );
                    assert(strs_view(unscheduled@) == greedy_outcome(
                        ordered.take(k + 1),
                        cands,
                        busy,
                    ).unscheduled);
                },
                None => {
                    unscheduled.push(task.id.clone());
                    assert(strs_view(unscheduled@) =~= greedy_outcome(
                        ordered.take(k + 1),
                        cands,
                        busy,
                    ).unscheduled);
                },
            }
        }
        assert(ordered.take(order@.len() as int) =~= ordered);
        SchedulePlan { scheduled, unscheduled_task_ids: unscheduled }
    }
}

impl Priority {
    fn priority_rank(&self) -> (r: u8)
        ensures
            r as int == priority_rank_spec(*self),
    {
        match self {
            Priority::Low => 0,
            Priority::Normal => 1,
            Priority::High => 2,
            Priority::Urgent => 3,
        }
    }
}

fn due_before_exec(a: Option<i64>, b: Option<i64>) -> (r: bool)
    ensures
        r == due_before(a, b),
{
    match (a, b) {
        (None, Some(_)) => true,
        (Some(x), Some(y)) => x < y,
        _ => false,
    }
}

fn key_lt(a: &Task, b: &Task) -> (r: bool)
    ensures
        r == schedule_key_lt(a@, b@),
{
    let ra = a.priority.priority_rank();
    let rb = b.priority.priority_rank();
    if ra != rb {
        ra > rb
    } else if a.due_at_ms != b.due_at_ms {
        due_before_exec(a.due_at_ms, b.due_at_ms)
    } else {
        a.created_at_ms < b.created_at_ms
    }
}

proof fn lemma_key_order(a: TaskView, b: TaskView, c: TaskView)
    ensures
        !(schedule_key_lt(a, b) && schedule_key_lt(b, a)),
        !schedule_key_lt(a, b) && !schedule_key_lt(b, a) ==> schedule_key_eq(a, b),
        schedule_key_eq(a, b) ==> !schedule_key_lt(a, b),
        schedule_key_lt(a, b) && schedule_key_lt(b, c) ==> schedule_key_lt(a, c),
        schedule_key_lt(a, b) && schedule_key_eq(b, c) ==> schedule_key_lt(a, c),
        schedule_key_eq(a, b) && schedule_key_lt(b, c) ==> schedule_key_lt(a, c),
        schedule_key_eq(a, b) && schedule_key_eq(b, c) ==> schedule_key_eq(a, c),
{
}

/// Indices of the tasks in the order the scheduler considers them.
fn schedule_order(tasks: &Vec<Task>) -> (order: Vec<usize>)
    ensures
        is_schedule_order(tasks@, order@),
{
    let mut order: Vec<usize> = Vec::new();
    for i in 0..tasks.len()
        invariant
            order@.len() == i,
            forall|k: int| 0 <= k < order@.len() ==> #[trigger] order@[k] < i,
            forall|k: int, l: int|
                0 <= k < l < order@.len() ==> considered_before(
                    tasks@,
                    #[trigger] order@[k] as int,
                    #[trigger] order@[l] as int,
                ),
    {
        let mut p: usize = 0;
        while p < order.len()
            invariant
                p <= order@.len(),
                order@.len() == i,
                i < tasks@.len(),
                forall|k: int| 0 <= k < order@.len() ==> #[trigger] order@[k] < i,
                forall|k: int| 0 <= k < p ==> !schedule_key_lt(tasks@[i as int]@, #[trigger] tasks@[order@[k] as int]@),
            ensures
                p <= order@.len(),
                forall|k: int| 0 <= k < p ==> !schedule_key_lt(tasks@[i as int]@, #[trigger] tasks@[order@[k] as int]@),
                p < order@.len() ==> schedule_key_lt(tasks@[i as int]@, tasks@[order@[p as int] as int]@),
            decreases order@.len() - p,
        {
            if key_lt(&tasks[i], &tasks[order[p]]) {
                break;
            }
            p += 1;
        }
        let ghost old_order = order@;
        proof {
            assert forall|k: int| p <= k < old_order.len() implies schedule_key_lt(
                tasks@[i as int]@,
                #[trigger] tasks@[old_order[k] as int]@,
            ) by {
                if k > p {
                    assert(considered_before(tasks@, old_order[p as int] as int, old_order[k] as int));
                    lemma_key_order(tasks@[i as int]@, tasks@[old_order[p as int] as int]@, tasks@[old_order[k] as int]@);
                }
            }
        }
        order.insert(p, i);
        proof {
            assert forall|k: int, l: int| 0 <= k < l < order@.len() implies considered_before(
                tasks@,
                #[trigger] order@[k] as int,
                #[trigger] order@[l] as int,
            ) by {
                if k == p {
                    lemma_key_order(tasks@[i as int]@, tasks@[order@[l] as int]@, tasks@[i as int]@);
                } else if l == p {
                    lemma_key_order(tasks@[order@[k] as int]@, tasks@[i as int]@, tasks@[i as int]@);
                } else {
                    let k0 = if k < p { k } else { k - 1 };
                    let l0 = if l < p { l } else { l - 1 };
                    assert(order@[k] == old_order[k0]);
                    assert(order@[l] == old_order[l0]);
                }
            }
        }
    }
    order
}

/// The first candidate block that has room for the estimate, at its earliest free slot.
fn find_placement(cands: &Vec<TimeBlock>, occupied: &Vec<TimeBlock>, estimate_minutes: i64) -> (r:
    Option<TimeBlock>)
    requires
        blocks_in_bounds(cands@),
        blocks_in_bounds(occupied@),
        0 < estimate_minutes <= MAX_ESTIMATE_MINUTES,
    ensures
        r == place_task(cands@, occupied@, estimate_minutes * 60_000),
        r matches Some(b) ==> block_in_bounds(b),
{
    let ghost d = estimate_minutes * 60_000;
    let mut c: usize = 0;
    assert(cands@.skip(0) =~= cands@);
    while c < cands.len()
        invariant
            c <= cands@.len(),
            blocks_in_bounds(cands@),
            blocks_in_bounds(occupied@),
            0 < estimate_minutes <= MAX_ESTIMATE_MINUTES,
            d == estimate_minutes * 60_000,
            place_task(cands@, occupied@, d) == place_task(cands@.skip(c as int), occupied@, d),
        decreases cands@.len() - c,
    {
        assert(cands@.skip(c as int)[0] == cands@[c as int]);
        assert(cands@.skip(c as int).drop_first() =~= cands@.skip(c + 1));
        match first_available_slot(&cands[c], occupied, estimate_minutes) {
            Some(b) => {
                return Some(b);
            },
            None => {
                c += 1;
            },
        }
    }
    None
}

/// No block of `ov` overlaps the slot `[s, s + d)`.
pub open spec fn clear_of(ov: Seq<TimeBlock>, d: int, s: int) -> bool {
    forall|j: int| 0 <= j < ov.len() ==> !(s < #[trigger] ov[j].end_ms && ov[j].start_ms < s + d)
}

proof fn lemma_free_iff_clear(
    cand: TimeBlock,
    occ: Seq<TimeBlock>,
    ov: Seq<TimeBlock>,
    d: int,
    s: int,
)
    requires
        forall|j: int| 0 <= j < ov.len() ==> occ.contains(#[trigger] ov[j]),
        forall|q: int|
            0 <= q < occ.len() && blocks_overlap(#[trigger] occ[q], cand) ==> ov.contains(occ[q]),
        cand.start_ms <= s,
        s + d <= cand.end_ms,
    ensures
        slot_is_free(cand, occ, d, s) <==> clear_of(ov, d, s),
{
    if slot_is_free(cand, occ, d, s) {
        assert forall|j: int| 0 <= j < ov.len() implies !(s < #[trigger] ov[j].end_ms
            && ov[j].start_ms < s + d) by {
            let q = choose|q: int| 0 <= q < occ.len() && occ[q] == ov[j];
            assert(occ[q] == ov[j]);
        }
    }
    if clear_of(ov, d, s) {
        assert forall|q: int| 0 <= q < occ.len() implies !(s < #[trigger] occ[q].end_ms
            && occ[q].start_ms < s + d) by {
            if s < occ[q].end_ms && occ[q].start_ms < s + d {
                assert(blocks_overlap(occ[q], cand));
                let j = choose|j: int| 0 <= j < ov.len() && ov[j] == occ[q];
                assert(ov[j] == occ[q]);
            }
        }
    }
}

fn first_available_slot(candidate: &TimeBlock, occupied: &Vec<TimeBlock>, estimate_minutes: i64) -> (r:
    Option<TimeBlock>)
    requires
        block_in_bounds(*candidate),
        blocks_in_bounds(occupied@),
        0 < estimate_minutes <= MAX_ESTIMATE_MINUTES,
    ensures
        r == earliest_slot(*candidate, occupied@, estimate_minutes * 60_000),
        r matches Some(b) ==> block_in_bounds(b),
{
    let duration_ms = estimate_minutes * 60_000;
    let ghost cand = *candidate;
    let ghost occ = occupied@;
    let ghost d = duration_ms as int;
    // The occupied blocks that overlap the candidate, sorted by start.
    let mut overlaps: Vec<TimeBlock> = Vec::new();
    for i in 0..occupied.len()
        invariant
            occ == occupied@,
            cand == *candidate,
            blocks_in_bounds(occ),
            forall|j: int|
                0 <= j < overlaps@.len() ==> blocks_overlap(#[trigger] overlaps@[j], cand)
                    && block_in_bounds(overlaps@[j]) && occ.contains(overlaps@[j]),
            forall|j: int, k: int|
                0 <= j < k < overlaps@.len() ==> (#[trigger] overlaps@[j]).start_ms
                    <= (#[trigger] overlaps@[k]).start_ms,
            forall|q: int|
                0 <= q < i && blocks_overlap(#[trigger] occ[q], cand) ==> overlaps@.contains(
                    occ[q],
                ),
    {
        let b = occupied[i];
        if b.overlaps(candidate) {
            let mut p: usize = 0;
            while p < overlaps.len()
                invariant
                    p <= overlaps@.len(),
                    forall|k: int| 0 <= k < p ==> (#[trigger] overlaps@[k]).start_ms <= b.start_ms,
                ensures
                    p <= overlaps@.len(),
                    forall|k: int| 0 <= k < p ==> (#[trigger] overlaps@[k]).start_ms <= b.start_ms,
                    p < overlaps@.len() ==> overlaps@[p as int].start_ms > b.start_ms,
                decreases overlaps@.len() - p,
            {
                if overlaps[p].start_ms > b.start_ms {
                    break;
                }
                p += 1;
            }
            let ghost old_ov = overlaps@;
            overlaps.insert(p, b);
            proof {
                assert(overlaps@[p as int] == b);
                assert(occ[i as int] == b);
                assert forall|q: int|
                    0 <= q < i + 1 && blocks_overlap(#[trigger] occ[q], cand) implies overlaps@.contains(occ[q]) by {
                    if q < i {
                        let j = choose|j: int| 0 <= j < old_ov.len() && old_ov[j] == occ[q];
                        if j < p {
                            assert(overlaps@[j] == occ[q]);
                        } else {
                            assert(overlaps@[j + 1] == occ[q]);
                        }
                    } else {
                        assert(overlaps@[p as int] == occ[q]);
                    }
                }
                assert forall|j: int, k: int|
                    0 <= j < k < overlaps@.len() implies (#[trigger] overlaps@[j]).start_ms
                        <= (#[trigger] overlaps@[k]).start_ms by {
                    if j == p {
                        if k - 1 > p {
                            assert(old_ov[p as int].start_ms <= old_ov[k - 1].start_ms);
                        }
                    } else if k == p {
                    } else {
                        let j0 = if j < p { j } else { j - 1 };
                        let k0 = if k < p { k } else { k - 1 };
                        assert(overlaps@[j] == old_ov[j0]);
                        assert(overlaps@[k] == old_ov[k0]);
                    }
                }
                assert forall|j: int| 0 <= j < overlaps@.len() implies blocks_overlap(#[trigger] overlaps@[j], cand)
                    && block_in_bounds(overlaps@[j]) && occ.contains(overlaps@[j]) by {
                    if j < p {
                        assert(overlaps@[j] == old_ov[j]);
                    } else if j > p {
                        assert(overlaps@[j] == old_ov[j - 1]);
                    } else {
                        assert(occ[i as int] == overlaps@[j]);
                    }
                }
            }
        } else {
            proof {
                assert(occ[i as int] == b);
            }
        }
    }
    let ghost ov = overlaps@;
    let mut cursor = candidate.start_ms;
    let mut k: usize = 0;
    while k < overlaps.len()
        invariant
            ov == overlaps@,
            cand == *candidate,
            occ == occupied@,
            d == duration_ms,
            duration_ms == estimate_minutes * 60_000,
            0 < duration_ms <= 0x4000_0000_0000_0000,
            block_in_bounds(cand),
            k <= ov.len(),
            forall|j: int|
                0 <= j < ov.len() ==> blocks_overlap(#[trigger] ov[j], cand) && block_in_bounds(
                    ov[j],
                ) && occ.contains(ov[j]),
            forall|j: int, l: int|
                0 <= j < l < ov.len() ==> (#[trigger] ov[j]).start_ms <= (#[trigger] ov[l]).start_ms,
            forall|q: int|
                0 <= q < occ.len() && blocks_overlap(#[trigger] occ[q], cand) ==> ov.contains(
                    occ[q],
                ),
            cand.start_ms <= cursor <= TIME_BOUND,
            forall|j: int| 0 <= j < k ==> (#[trigger] ov[j]).end_ms <= cursor,
            forall|s: int| cand.start_ms <= s < cursor ==> !#[trigger] clear_of(ov, d, s),
        decreases ov.len() - k,
    {
        let block = overlaps[k];
        if cursor + duration_ms <= block.start_ms {
            proof {
                assert(clear_of(ov, d, cursor as int)) by {
                    assert forall|j: int| 0 <= j < ov.len() implies !(cursor < #[trigger] ov[j].end_ms
                        && ov[j].start_ms < cursor + d) by {
                        if j >= k {
                            assert(ov[k as int].start_ms <= ov[j].start_ms);
                        }
                    }
                }
                lemma_free_iff_clear(cand, occ, ov, d, cursor as int);
                assert forall|t: int| t < cursor implies !#[trigger] slot_is_free(cand, occ, d, t) by {
                    if cand.start_ms <= t && t + d <= cand.end_ms {
                        lemma_free_iff_clear(cand, occ, ov, d, t);
                    }
                }
                assert(is_earliest_slot(cand, occ, d, cursor as int));
                let s = choose|s: int| is_earliest_slot(cand, occ, d, s);
                assert(s == cursor) by {
                    if s < cursor {
                        assert(!slot_is_free(cand, occ, d, s));
                    } else if s > cursor {
                        assert(!slot_is_free(cand, occ, d, cursor as int));
                    }
                }
            }
            return Some(TimeBlock { start_ms: cursor, end_ms: cursor + duration_ms });
        }
        proof {
            assert forall|s: int| cand.start_ms <= s < (if block.end_ms > cursor { block.end_ms } else { cursor }) implies !#[trigger] clear_of(ov, d, s) by {
                if s >= cursor {
                    assert(s < ov[k as int].end_ms && ov[k as int].start_ms < s + d);
                }
            }
        }
        if block.end_ms > cursor {
            cursor = block.end_ms;
        }
        k += 1;
    }
    if cursor + duration_ms <= candidate.end_ms {
        proof {
            assert(clear_of(ov, d, cursor as int));
            lemma_free_iff_clear(cand, occ, ov, d, cursor as int);
            assert forall|t: int| t < cursor implies !#[trigger] slot_is_free(cand, occ, d, t) by {
                if cand.start_ms <= t && t + d <= cand.end_ms {
                    lemma_free_iff_clear(cand, occ, ov, d, t);
                }
            }
            assert(is_earliest_slot(cand, occ, d, cursor as int));
            let s = choose|s: int| is_earliest_slot(cand, occ, d, s);
            assert(s == cursor) by {
                if s < cursor {
                    assert(!slot_is_free(cand, occ, d, s));
                } else if s > cursor {
                    assert(!slot_is_free(cand, occ, d, cursor as int));
                }
            }
        }
        Some(TimeBlock { start_ms: cursor, end_ms: cursor + duration_ms })
    } else {
        proof {
            assert forall|s: int| !is_earliest_slot(cand, occ, d, s) by {
                if slot_is_free(cand, occ, d, s) {
                    if s < cursor {
                        lemma_free_iff_clear(cand, occ, ov, d, s);
                    }
                }
            }
        }
        None
    }
}

/// A placement lies inside the candidate block it was found in.
pub open spec fn inside(b: TimeBlock, c: TimeBlock) -> bool {
    c.start_ms <= b.start_ms && b.end_ms <= c.end_ms
}

proof fn lemma_earliest_slot_free(cand: TimeBlock, occ: Seq<TimeBlock>, d: int)
    requires
        block_in_bounds(cand),
        0 < d,
        earliest_slot(cand, occ, d) is Some,
    ensures
        ({
            let b = earliest_slot(cand, occ, d)->0;
            &&& inside(b, cand)
            &&& b.end_ms - b.start_ms == d
            &&& forall|i: int| 0 <= i < occ.len() ==> !blocks_overlap(b, #[trigger] occ[i])
        }),
{
    let s = choose|s: int| is_earliest_slot(cand, occ, d, s);
    assert(slot_is_free(cand, occ, d, s));
    let b = earliest_slot(cand, occ, d)->0;
    assert(b.start_ms == s && b.end_ms == s + d);
}

proof fn lemma_place_task_free(cands: Seq<TimeBlock>, occ: Seq<TimeBlock>, d: int)
    requires
        blocks_in_bounds(cands),
        0 < d,
        place_task(cands, occ, d) is Some,
    ensures
        ({
            let b = place_task(cands, occ, d)->0;
            &&& exists|k: int| 0 <= k < cands.len() && inside(b, #[trigger] cands[k])
            &&& b.end_ms - b.start_ms == d
            &&& forall|i: int| 0 <= i < occ.len() ==> !blocks_overlap(b, #[trigger] occ[i])
        }),
    decreases cands.len(),
{
    assert(block_in_bounds(cands[0]));
    if earliest_slot(cands[0], occ, d) is Some {
        lemma_earliest_slot_free(cands[0], occ, d);
        assert(inside(place_task(cands, occ, d)->0, cands[0]));
    } else {
        let rest = cands.drop_first();
        assert(blocks_in_bounds(rest)) by {
            assert forall|i: int| 0 <= i < rest.len() implies #[trigger] block_in_bounds(rest[i]) by {
                assert(rest[i] == cands[i + 1]);
            }
        }
        lemma_place_task_free(rest, occ, d);
        let b = place_task(cands, occ, d)->0;
        let k = choose|k: int| 0 <= k < rest.len() && inside(b, #[trigger] rest[k]);
        assert(cands[k + 1] == rest[k]);
    }
}

/// The greedy plan never double-books: every placement lies inside a candidate block, is as
/// long as its task's estimate, and overlaps neither a busy block nor another placement; and
/// every task is either placed or reported unplaced.
pub proof fn lemma_greedy_plan_respects_busy_time(
    ordered: Seq<TaskView>,
    cands: Seq<TimeBlock>,
    busy: Seq<TimeBlock>,
)
    requires
        blocks_in_bounds(cands),
    ensures
        ({
            let out = greedy_outcome(ordered, cands, busy);
            &&& out.scheduled.len() + out.unscheduled.len() == ordered.len()
            &&& out.occupied == busy + out.scheduled.map_values(|p: (Seq<char>, TimeBlock)| p.1)
            &&& forall|i: int|
                0 <= i < out.scheduled.len() ==> exists|k: int|
                    0 <= k < cands.len() && inside((#[trigger] out.scheduled[i]).1, cands[k])
            &&& forall|i: int, j: int|
                0 <= i < out.scheduled.len() && 0 <= j < busy.len() ==> !blocks_overlap(
                    (#[trigger] out.scheduled[i]).1,
                    #[trigger] busy[j],
                )
            &&& forall|i: int, j: int|
                0 <= i < out.scheduled.len() && 0 <= j < out.scheduled.len() && i != j
                    ==> !blocks_overlap((#[trigger] out.scheduled[i]).1, (#[trigger] out.scheduled[j]).1)
        }),
    decreases ordered.len(),
{
    let out = greedy_outcome(ordered, cands, busy);
    if ordered.len() == 0 {
        assert(out.occupied =~= busy + out.scheduled.map_values(|p: (Seq<char>, TimeBlock)| p.1));
    } else {
        let prev_ordered = ordered.drop_last();
        lemma_greedy_plan_respects_busy_time(prev_ordered, cands, busy);
        let prev = greedy_outcome(prev_ordered, cands, busy);
        let t = ordered.last();
        let d = planned_minutes(t) * 60_000;
        let placed = prev.scheduled.map_values(|p: (Seq<char>, TimeBlock)| p.1);
        match place_task(cands, prev.occupied, d) {
            Some(b) => {
                lemma_place_task_free(cands, prev.occupied, d);
                assert(out.scheduled == prev.scheduled.push((t.id, b)));
                assert(out.occupied =~= busy + out.scheduled.map_values(
                    |p: (Seq<char>, TimeBlock)| p.1,
                ));
                let n = prev.scheduled.len() as int;
                assert forall|j: int| 0 <= j < busy.len() implies !blocks_overlap(b, #[trigger] busy[j]) by {
                    assert(prev.occupied[j] == busy[j]);
                }
                assert forall|j: int| 0 <= j < n implies !blocks_overlap(b, (#[trigger] prev.scheduled[j]).1) by {
                    assert(prev.occupied[busy.len() + j] == prev.scheduled[j].1);
                }
                assert forall|i: int, j: int|
                    0 <= i < out.scheduled.len() && 0 <= j < out.scheduled.len() && i != j
                        implies !blocks_overlap((#[trigger] out.scheduled[i]).1, (#[trigger] out.scheduled[j]).1) by {
                    if i == n {
                        assert(out.scheduled[j] == prev.scheduled[j]);
                    } else if j == n {
                        assert(out.scheduled[i] == prev.scheduled[i]);
                        assert(!blocks_overlap(b, prev.scheduled[i].1));
                    } else {
                        assert(out.scheduled[i] == prev.scheduled[i]);
                        assert(out.scheduled[j] == prev.scheduled[j]);
                    }
                }
                assert forall|i: int, j: int|
                    0 <= i < out.scheduled.len() && 0 <= j < busy.len() implies !blocks_overlap(
                        (#[trigger] out.scheduled[i]).1,
                        #[trigger] busy[j],
                    ) by {
                    if i < n {
                        assert(out.scheduled[i] == prev.scheduled[i]);
                    }
                }
                assert forall|i: int| 0 <= i < out.scheduled.len() implies exists|k: int|
                    0 <= k < cands.len() && inside((#[trigger] out.scheduled[i]).1, cands[k]) by {
                    if i < n {
                        assert(out.scheduled[i] == prev.scheduled[i]);
                    }
                }
            },
            None => {
                assert(out.scheduled == prev.scheduled);
            },
        }
    }
}

/// Overlap is symmetric.
pub proof fn lemma_overlap_symmetric(a: TimeBlock, b: TimeBlock)
    ensures
        blocks_overlap(a, b) == blocks_overlap(b, a),
{
}

/// Among tasks of the same priority, the one due earlier is considered first: in a
/// scheduling order no task comes after a task of the same priority that is due later, and
/// a task without a due date never comes after one of the same priority that has one.
pub proof fn lemma_earlier_due_date_goes_first(tasks: Seq<Task>, order: Seq<usize>, k: int, l: int)
    requires
        is_schedule_order(tasks, order),
        0 <= k < l < order.len(),
        tasks[order[k] as int]@.priority == tasks[order[l] as int]@.priority,
    ensures
        match (tasks[order[k] as int]@.due_at_ms, tasks[order[l] as int]@.due_at_ms) {
            (Some(x), Some(y)) => x <= y,
            (Some(_), None) => false,
            _ => true,
        },
{
    assert(considered_before(tasks, order[k] as int, order[l] as int));
}

/// In a scheduling order a task of higher priority is never placed after one of lower
/// priority, and among tasks of the same priority and due date the one created first comes
/// first.
pub proof fn lemma_priority_then_creation_order(tasks: Seq<Task>, order: Seq<usize>, k: int, l: int)
    requires
        is_schedule_order(tasks, order),
        0 <= k < l < order.len(),
    ensures
        priority_rank_spec(tasks[order[k] as int]@.priority) >= priority_rank_spec(
            tasks[order[l] as int]@.priority,
        ),
        tasks[order[k] as int]@.priority == tasks[order[l] as int]@.priority
            && tasks[order[k] as int]@.due_at_ms == tasks[order[l] as int]@.due_at_ms
            ==> tasks[order[k] as int]@.created_at_ms <= tasks[order[l] as int]@.created_at_ms,
{
    assert(considered_before(tasks, order[k] as int, order[l] as int));
}

} // verus!
