//! Storage contracts for the local task database, and an in-memory store.
use crate::sync::{ExternalLink, ExternalProvider, LinkView};
use crate::task::{Task, TaskId, TaskStatus, TaskView};
use crate::text::str_chars;
use vstd::prelude::*;

verus! {

#[derive(Debug, Clone, PartialEq, Eq)]
pub enum StoreError {
    NotFound(TaskId),
    Conflict(String),
    Backend(String),
}

/// Lexicographic order of character sequences.
pub open spec fn chars_lt(a: Seq<char>, b: Seq<char>) -> bool
    decreases a.len(),
{
    if a.len() == 0 {
        b.len() > 0
    } else if b.len() == 0 {
        false
    } else if a[0] != b[0] {
        a[0] < b[0]
    } else {
        chars_lt(a.drop_first(), b.drop_first())
    }
}

/// Listing order: `sort_order`, then creation time, then id.
pub open spec fn listed_before(a: TaskView, b: TaskView) -> bool {
    ||| a.sort_order < b.sort_order
    ||| a.sort_order == b.sort_order && a.created_at_ms < b.created_at_ms
    ||| a.sort_order == b.sort_order && a.created_at_ms == b.created_at_ms && chars_lt(a.id, b.id)
}

pub open spec fn status_filter(status: Option<TaskStatus>, t: TaskView) -> bool {
    match status {
        Some(s) => t.status == s,
        None => true,
    }
}

/// `s` lists, in listing order, exactly the stored tasks that pass the status filter.
pub open spec fn is_listing(
    tasks: Map<Seq<char>, TaskView>,
    status: Option<TaskStatus>,
    s: Seq<Task>,
) -> bool {
    &&& forall|i: int|
        0 <= i < s.len() ==> tasks.contains_key((#[trigger] s[i])@.id) && tasks[s[i]@.id] == s[i]@
            && status_filter(status, s[i]@)
    &&& forall|k: Seq<char>|
        tasks.contains_key(k) && status_filter(status, tasks[k]) ==> exists|i: int|
            0 <= i < s.len() && (#[trigger] s[i])@.id == k
    &&& forall|i: int, j: int| 0 <= i < j < s.len() ==> listed_before(#[trigger] s[i]@, #[trigger] s[j]@)
}

/// Sort orders after `ids[0..n]` is applied in turn: the id at position `j` gets order `j`.
pub open spec fn reordered(tasks: Map<Seq<char>, TaskView>, ids: Seq<Seq<char>>, n: int) -> Map<
    Seq<char>,
    TaskView,
>
    decreases n,
{
    if n <= 0 {
        tasks
    } else {
        let prev = reordered(tasks, ids, n - 1);
        let id = ids[n - 1];
        if prev.contains_key(id) {
            prev.insert(id, TaskView { sort_order: (n - 1) as i64, ..prev[id] })
        } else {
            prev
        }
    }
}

/// Index of the first id that names no stored task, or the length when all do.
pub open spec fn first_missing(tasks: Map<Seq<char>, TaskView>, ids: Seq<Seq<char>>, j: int) -> int
    decreases ids.len() - j,
{
    if j >= ids.len() || !tasks.contains_key(ids[j]) {
        j
    } else {
        first_missing(tasks, ids, j + 1)
    }
}

/// `v` lists, each once, exactly the stored links that `keep` selects.
pub open spec fn links_listed(
    links: Map<Seq<char>, LinkView>,
    keep: spec_fn(LinkView) -> bool,
    v: Seq<ExternalLink>,
) -> bool {
    &&& forall|i: int|
        0 <= i < v.len() ==> links.contains_key((#[trigger] v[i])@.id) && links[v[i]@.id] == v[i]@
            && keep(v[i]@)
    &&& forall|k: Seq<char>|
        links.contains_key(k) && keep(links[k]) ==> exists|i: int|
            0 <= i < v.len() && (#[trigger] v[i])@.id == k
    &&& forall|i: int, j: int| 0 <= i < j < v.len() ==> (#[trigger] v[i])@.id != (#[trigger] v[j])@.id
}

/// The stored links that do not point at task `id`.
pub open spec fn links_without_task(
    links: Map<Seq<char>, LinkView>,
    id: Seq<char>,
) -> Map<Seq<char>, LinkView> {
    links.restrict(links.dom().filter(|k: Seq<char>| links[k].task_id != id))
}

/// A store of tasks. Its content is `task_map`, the tasks by id; a store that also keeps
/// links to outside items shows them in `link_map`, by link id. The contracts below say what
/// each call does to that content when it succeeds.
pub trait TaskStore {
    /// The stored tasks by id. A store of this library gives its own; the empty default only
    /// lets a store that is written in plain Rust, outside the library, leave it out.
    closed spec fn task_map(&self) -> Map<Seq<char>, TaskView> {
        Map::empty()
    }

    /// The stored links by id, with the same default.
    closed spec fn link_map(&self) -> Map<Seq<char>, LinkView> {
        Map::empty()
    }

    /// Stores the task, replacing any task with its id; links are untouched, and a failed
    /// write leaves the tasks as they were.
    fn upsert_task(&mut self, task: Task) -> (r: Result<(), StoreError>)
        ensures
            r is Ok ==> final(self).task_map() == old(self).task_map().insert(task@.id, task@),
            r is Err ==> final(self).task_map() == old(self).task_map(),
            final(self).link_map() == old(self).link_map(),
    ;

    /// The task stored under the id, if any.
    fn get_task(&self, id: &TaskId) -> (r: Result<Option<Task>, StoreError>)
        ensures
            r matches Ok(found) ==> match found {
                Some(t) => self.task_map().contains_key(id@) && t@ == self.task_map()[id@],
                None => !self.task_map().contains_key(id@),
            },
    ;

    /// All stored tasks in listing order.
    fn list_tasks(&self) -> (r: Result<Vec<Task>, StoreError>)
        ensures
            r matches Ok(v) ==> is_listing(self.task_map(), None, v@),
    ;

    /// The stored tasks with the status, in listing order.
    fn list_tasks_by_status(&self, status: TaskStatus) -> (r: Result<Vec<Task>, StoreError>)
        ensures
            r matches Ok(v) ==> is_listing(self.task_map(), Some(status), v@),
    ;

    /// Gives each listed task its position as sort order; succeeds only when every id names a
    /// stored task. Links are untouched.
    fn reorder_tasks(&mut self, task_ids: &[TaskId]) -> (r: Result<(), StoreError>)
        ensures
            ({
                let ids = task_ids@.map_values(|s: String| s@);
                r is Ok ==> first_missing(old(self).task_map(), ids, 0) == ids.len()
                    && final(self).task_map() == reordered(old(self).task_map(), ids, ids.len() as int)
            }),
            final(self).link_map() == old(self).link_map(),
    ;

    /// Removes the task with the id, and the links that point at it.
    fn delete_task(&mut self, id: &TaskId) -> (r: Result<(), StoreError>)
        ensures
            r is Ok ==> old(self).task_map().contains_key(id@) && final(self).task_map()
                == old(self).task_map().remove(id@) && final(self).link_map()
                == links_without_task(old(self).link_map(), id@),
    ;
}

/// A store of the links between tasks and items of outside providers, beside its tasks.
pub trait ExternalLinkStore: TaskStore {
    /// Stores the link, replacing any link with its id; tasks are untouched, and a failed
    /// write leaves the links as they were.
    fn upsert_external_link(&mut self, link: ExternalLink) -> (r: Result<(), StoreError>)
        ensures
            r is Ok ==> final(self).link_map() == old(self).link_map().insert(link@.id, link@),
            r is Err ==> final(self).link_map() == old(self).link_map(),
            final(self).task_map() == old(self).task_map(),
    ;

    /// The link stored under the id, if any.
    fn get_external_link(&self, id: &str) -> (r: Result<Option<ExternalLink>, StoreError>)
        ensures
            r matches Ok(found) ==> match found {
                Some(l) => self.link_map().contains_key(id@) && l@ == self.link_map()[id@],
                None => !self.link_map().contains_key(id@),
            },
    ;

    /// The link of the provider with the external id, if one is stored.
    fn get_external_link_by_external_id(
        &self,
        provider: &ExternalProvider,
        external_id: &str,
    ) -> (r: Result<Option<ExternalLink>, StoreError>)
        ensures
            r matches Ok(found) ==> match found {
                Some(l) => self.link_map().contains_key(l@.id) && self.link_map()[l@.id] == l@
                    && l@.provider == provider@ && l@.external_id == Some(external_id@),
                None => forall|k: Seq<char>|
                    #[trigger] self.link_map().contains_key(k) ==> !(self.link_map()[k].provider
                        == provider@ && self.link_map()[k].external_id == Some(external_id@)),
            },
    ;

    /// The link of the provider with the external path, if one is stored.
    fn get_external_link_by_external_path(
        &self,
        provider: &ExternalProvider,
        external_path: &str,
    ) -> (r: Result<Option<ExternalLink>, StoreError>)
        ensures
            r matches Ok(found) ==> match found {
                Some(l) => self.link_map().contains_key(l@.id) && self.link_map()[l@.id] == l@
                    && l@.provider == provider@ && l@.external_path == Some(external_path@),
                None => forall|k: Seq<char>|
                    #[trigger] self.link_map().contains_key(k) ==> !(self.link_map()[k].provider
                        == provider@ && self.link_map()[k].external_path == Some(external_path@)),
            },
    ;

    /// The stored links that point at the task.
    fn list_external_links_for_task(&self, task_id: &TaskId) -> (r: Result<
        Vec<ExternalLink>,
        StoreError,
    >)
        ensures
            r matches Ok(v) ==> links_listed(
                self.link_map(),
                |l: LinkView| l.task_id == task_id@,
                v@,
            ),
    ;

    /// All stored links.
    fn list_external_links(&self) -> (r: Result<Vec<ExternalLink>, StoreError>)
        ensures
            r matches Ok(v) ==> links_listed(self.link_map(), |l: LinkView| true, v@),
    ;
}

/// Tasks held in memory, at most one per id.
#[derive(Debug)]
pub struct InMemoryTaskStore {
    tasks: Vec<Task>,
}

pub open spec fn ids_unique(v: Seq<Task>) -> bool {
    forall|i: int, j: int| 0 <= i < j < v.len() ==> (#[trigger] v[i])@.id != (#[trigger] v[j])@.id
}

pub open spec fn has_id(v: Seq<Task>, k: Seq<char>) -> bool {
    exists|i: int| 0 <= i < v.len() && (#[trigger] v[i])@.id == k
}

pub open spec fn map_of(v: Seq<Task>) -> Map<Seq<char>, TaskView> {
    Map::new(
        |k: Seq<char>| has_id(v, k),
        |k: Seq<char>| v[choose|i: int| 0 <= i < v.len() && (#[trigger] v[i])@.id == k]@,
    )
}

proof fn lemma_map_of_at(v: Seq<Task>, i: int)
    requires
        ids_unique(v),
        0 <= i < v.len(),
    ensures
        map_of(v).contains_key(v[i]@.id),
        map_of(v)[v[i]@.id] == v[i]@,
{
    let k = v[i]@.id;
    assert(has_id(v, k));
    let j = choose|j: int| 0 <= j < v.len() && (#[trigger] v[j])@.id == k;
    if j != i {
        if j < i {
            assert(v[j]@.id != v[i]@.id);
        } else {
            assert(v[i]@.id != v[j]@.id);
        }
    }
}

impl InMemoryTaskStore {
    #[verifier::type_invariant]
    spec fn well_formed(self) -> bool {
        ids_unique(self.tasks@)
    }

    /// Position of the task with this id, if one is stored.
    fn position(&self, id: &TaskId) -> (r: Option<usize>)
        ensures
            match r {
                Some(i) => i < self.tasks@.len() && self.tasks@[i as int]@.id == id@,
                None => !has_id(self.tasks@, id@),
            },
    {
        for i in 0..self.tasks.len()
            invariant
                forall|j: int| 0 <= j < i ==> (#[trigger] self.tasks@[j])@.id != id@,
        {
            if self.tasks[i].id == *id {
                return Some(i);
            }
        }
        None
    }
}

impl Default for InMemoryTaskStore {
    fn default() -> (r: InMemoryTaskStore)
        ensures
            r.task_map() == Map::<Seq<char>, TaskView>::empty(),
    {
        let r = InMemoryTaskStore { tasks: Vec::new() };
        assert(map_of(r.tasks@) =~= Map::<Seq<char>, TaskView>::empty());
        r
    }
}

pub(crate) fn chars_lt_exec(a: &Vec<char>, b: &Vec<char>) -> (r: bool)
    ensures
        r == chars_lt(a@, b@),
{
    let mut i: usize = 0;
    assert(a@.skip(0) =~= a@);
    assert(b@.skip(0) =~= b@);
    while i < a.len() && i < b.len() && a[i] == b[i]
        invariant
            i <= a@.len(),
            i <= b@.len(),
            chars_lt(a@, b@) == chars_lt(a@.skip(i as int), b@.skip(i as int)),
        decreases a@.len() - i,
    {
        assert(a@.skip(i as int).drop_first() =~= a@.skip(i + 1));
        assert(b@.skip(i as int).drop_first() =~= b@.skip(i + 1));
        i = i + 1;
    }
    if i == a.len() {
        i < b.len()
    } else if i == b.len() {
        false
    } else {
        a[i] < b[i]
    }
}

fn listed_before_exec(a: &Task, b: &Task) -> (r: bool)
    ensures
        r == listed_before(a@, b@),
{
    if a.sort_order != b.sort_order {
        a.sort_order < b.sort_order
    } else if a.created_at_ms != b.created_at_ms {
        a.created_at_ms < b.created_at_ms
    } else {
        let ac = str_chars(a.id.as_str());
        let bc = str_chars(b.id.as_str());
        chars_lt_exec(&ac, &bc)
    }
}

pub(crate) proof fn lemma_chars_lt_order(a: Seq<char>, b: Seq<char>, c: Seq<char>)
    ensures
        !(chars_lt(a, b) && chars_lt(b, a)),
        a != b ==> chars_lt(a, b) || chars_lt(b, a),
        chars_lt(a, b) && chars_lt(b, c) ==> chars_lt(a, c),
        !chars_lt(a, a),
    decreases a.len(),
{
    if a.len() > 0 && b.len() > 0 && c.len() > 0 {
        lemma_chars_lt_order(a.drop_first(), b.drop_first(), c.drop_first());
    } else if a.len() > 0 && b.len() > 0 {
        lemma_chars_lt_order(a.drop_first(), b.drop_first(), b.drop_first());
    } else if a.len() > 0 {
        lemma_chars_lt_order(a.drop_first(), a.drop_first(), a.drop_first());
    }
    if a.len() > 0 && b.len() > 0 && a[0] == b[0] && a != b {
        assert(a.drop_first() != b.drop_first()) by {
            if a.drop_first() == b.drop_first() {
                assert(a =~= seq![a[0]] + a.drop_first());
                assert(b =~= seq![b[0]] + b.drop_first());
            }
        }
    }
    if a.len() == 0 && b.len() == 0 {
        assert(a =~= b);
    }
}

pub(crate) proof fn lemma_listed_order(a: TaskView, b: TaskView, c: TaskView)
    ensures
        !(listed_before(a, b) && listed_before(b, a)),
        a.id != b.id ==> listed_before(a, b) || listed_before(b, a),
        listed_before(a, b) && listed_before(b, c) ==> listed_before(a, c),
        !listed_before(a, a),
{
    lemma_chars_lt_order(a.id, b.id, c.id);
    lemma_chars_lt_order(b.id, a.id, a.id);
    lemma_chars_lt_order(a.id, a.id, a.id);
}

pub open spec fn sorted_listed(r: Seq<Task>) -> bool {
    forall|q: int, l: int| 0 <= q < l < r.len() ==> listed_before(#[trigger] r[q]@, #[trigger] r[l]@)
}

/// `r` holds, in listing order, the tasks among the first `i` that pass the filter.
#[verifier::opaque]
pub open spec fn listing_prefix(tasks: Seq<Task>, status: Option<TaskStatus>, i: int, r: Seq<Task>) -> bool {
    &&& forall|q: int|
        0 <= q < r.len() ==> exists|j: int| 0 <= j < i && (#[trigger] r[q])@ == (#[trigger] tasks[j])@
    &&& forall|q: int| 0 <= q < r.len() ==> status_filter(status, (#[trigger] r[q])@)
    &&& forall|j: int|
        0 <= j < i && status_filter(status, (#[trigger] tasks[j])@) ==> exists|q: int|
            0 <= q < r.len() && (#[trigger] r[q])@ == tasks[j]@
    &&& sorted_listed(r)
}

/// Inserts `t` at its place in listing order.
fn insert_listed(r: &mut Vec<Task>, t: Task) -> (p: usize)
    requires
        sorted_listed(old(r)@),
        forall|q: int| 0 <= q < old(r)@.len() ==> (#[trigger] old(r)@[q])@.id != t@.id,
    ensures
        p <= old(r)@.len(),
        final(r)@ == old(r)@.insert(p as int, t),
        sorted_listed(final(r)@),
{
    let mut p: usize = 0;
    while p < r.len()
        invariant
            p <= r@.len(),
            forall|q: int| 0 <= q < p ==> !listed_before(t@, #[trigger] r@[q]@),
        ensures
            p <= r@.len(),
            forall|q: int| 0 <= q < p ==> !listed_before(t@, #[trigger] r@[q]@),
            p < r@.len() ==> listed_before(t@, r@[p as int]@),
        decreases r@.len() - p,
    {
        if listed_before_exec(&t, &r[p]) {
            break;
        }
        p = p + 1;
    }
    let ghost old_r = r@;
    let ghost tv = t@;
    proof {
        assert forall|q: int| 0 <= q < p implies listed_before(#[trigger] old_r[q]@, tv) by {
            lemma_listed_order(old_r[q]@, tv, tv);
        }
        assert forall|q: int| p <= q < old_r.len() implies listed_before(tv, #[trigger] old_r[q]@) by {
            if q > p {
                lemma_listed_order(tv, old_r[p as int]@, old_r[q]@);
            }
        }
    }
    r.insert(p, t);
    proof {
        assert forall|q: int, l: int| 0 <= q < l < r@.len() implies listed_before(#[trigger] r@[q]@, #[trigger] r@[l]@) by {
            if q == p {
                assert(r@[l] == old_r[l - 1]);
            } else if l == p {
                assert(r@[q] == old_r[q]);
            } else {
                let q0 = if q < p { q } else { q - 1 };
                let l0 = if l < p { l } else { l - 1 };
                assert(r@[q] == old_r[q0]);
                assert(r@[l] == old_r[l0]);
            }
        }
    }
    p
}

proof fn lemma_listing_fresh(tasks: Seq<Task>, status: Option<TaskStatus>, i: int, r: Seq<Task>)
    requires
        ids_unique(tasks),
        0 <= i < tasks.len(),
        listing_prefix(tasks, status, i, r),
    ensures
        forall|q: int| 0 <= q < r.len() ==> (#[trigger] r[q])@.id != tasks[i]@.id,
{
    reveal(listing_prefix);
    assert forall|q: int| 0 <= q < r.len() implies (#[trigger] r[q])@.id != tasks[i]@.id by {
        let j = choose|j: int| 0 <= j < i && r[q]@ == (#[trigger] tasks[j])@;
        assert(tasks[j]@.id != tasks[i]@.id);
    }
}

proof fn lemma_listing_step(
    tasks: Seq<Task>,
    status: Option<TaskStatus>,
    i: int,
    r: Seq<Task>,
    nr: Seq<Task>,
    p: int,
)
    requires
        0 <= i < tasks.len(),
        listing_prefix(tasks, status, i, r),
        status_filter(status, tasks[i]@),
        0 <= p <= r.len(),
        nr.len() == r.len() + 1,
        nr[p]@ == tasks[i]@,
        forall|q: int| 0 <= q < p ==> nr[q] == r[q],
        forall|q: int| p < q < nr.len() ==> nr[q] == r[q - 1],
        sorted_listed(nr),
    ensures
        listing_prefix(tasks, status, i + 1, nr),
{
    reveal(listing_prefix);
    assert forall|q: int| 0 <= q < nr.len() implies exists|j: int|
        0 <= j < i + 1 && (#[trigger] nr[q])@ == (#[trigger] tasks[j])@ by {
        if q < p {
            assert(nr[q] == r[q]);
        } else if q > p {
            assert(nr[q] == r[q - 1]);
        } else {
            assert(nr[q]@ == tasks[i]@);
        }
    }
    assert forall|q: int| 0 <= q < nr.len() implies status_filter(status, (#[trigger] nr[q])@) by {
        if q < p {
            assert(nr[q] == r[q]);
        } else if q > p {
            assert(nr[q] == r[q - 1]);
        }
    }
    assert forall|j: int|
        0 <= j < i + 1 && status_filter(status, (#[trigger] tasks[j])@) implies exists|q: int|
            0 <= q < nr.len() && (#[trigger] nr[q])@ == tasks[j]@ by {
        if j < i {
            let q = choose|q: int| 0 <= q < r.len() && (#[trigger] r[q])@ == tasks[j]@;
            if q < p {
                assert(nr[q] == r[q]);
            } else {
                assert(nr[q + 1] == r[q]);
            }
        } else {
            assert(nr[p]@ == tasks[j]@);
        }
    }
}

proof fn lemma_listing_skip(tasks: Seq<Task>, status: Option<TaskStatus>, i: int, r: Seq<Task>)
    requires
        0 <= i < tasks.len(),
        listing_prefix(tasks, status, i, r),
        !status_filter(status, tasks[i]@),
    ensures
        listing_prefix(tasks, status, i + 1, r),
{
    reveal(listing_prefix);
    assert forall|q: int| 0 <= q < r.len() implies exists|j: int| 0 <= j < i + 1 && (#[trigger] r[q])@ == (#[trigger] tasks[j])@ by {
        let j = choose|j: int| 0 <= j < i && (#[trigger] r[q])@ == (#[trigger] tasks[j])@;
    }
}

proof fn lemma_listing_done(tasks: Seq<Task>, status: Option<TaskStatus>, r: Seq<Task>)
    requires
        ids_unique(tasks),
        listing_prefix(tasks, status, tasks.len() as int, r),
    ensures
        is_listing(map_of(tasks), status, r),
{
    reveal(listing_prefix);
    let m = map_of(tasks);
    assert forall|q: int| 0 <= q < r.len() implies m.contains_key((#[trigger] r[q])@.id) && m[r[q]@.id]
        == r[q]@ && status_filter(status, r[q]@) by {
        let j = choose|j: int| 0 <= j < tasks.len() && r[q]@ == (#[trigger] tasks[j])@;
        lemma_map_of_at(tasks, j);
    }
    assert forall|k: Seq<char>| m.contains_key(k) && status_filter(status, m[k]) implies exists|q: int|
        0 <= q < r.len() && (#[trigger] r[q])@.id == k by {
        let j = choose|j: int| 0 <= j < tasks.len() && (#[trigger] tasks[j])@.id == k;
        lemma_map_of_at(tasks, j);
        let q = choose|q: int| 0 <= q < r.len() && (#[trigger] r[q])@ == tasks[j]@;
        assert(r[q]@.id == k);
    }
}

/// The stored tasks that pass the filter, in listing order.
fn sorted_listing(tasks: &Vec<Task>, status: Option<TaskStatus>) -> (r: Vec<Task>)
    requires
        ids_unique(tasks@),
    ensures
        is_listing(map_of(tasks@), status, r@),
{
    let mut r: Vec<Task> = Vec::new();
    proof {
        reveal(listing_prefix);
    }
    for i in 0..tasks.len()
        invariant
            ids_unique(tasks@),
            listing_prefix(tasks@, status, i as int, r@),
    {
        let keep = match status {
            Some(s) => tasks[i].status == s,
            None => true,
        };
        if keep {
            let t = tasks[i].clone();
            proof {
                lemma_listing_fresh(tasks@, status, i as int, r@);
                reveal(listing_prefix);
            }
            let ghost old_r = r@;
            let p = insert_listed(&mut r, t);
            proof {
                lemma_listing_step(tasks@, status, i as int, old_r, r@, p as int);
            }
        } else {
            proof {
                lemma_listing_skip(tasks@, status, i as int, r@);
            }
        }
    }
    proof {
        lemma_listing_done(tasks@, status, r@);
    }
    r
}

impl TaskStore for InMemoryTaskStore {
    /// The stored tasks by id.
    closed spec fn task_map(&self) -> Map<Seq<char>, TaskView> {
        map_of(self.tasks@)
    }

    /// This store keeps no links.
    closed spec fn link_map(&self) -> Map<Seq<char>, LinkView> {
        Map::empty()
    }

    /// Stores the task, replacing any task with the same id.
    fn upsert_task(&mut self, task: Task) -> (r: Result<(), StoreError>)
        ensures
            r is Ok,
            final(self).task_map() == old(self).task_map().insert(task@.id, task@),
    {
        proof {
            use_type_invariant(&*self);
        }
        let ghost old_v = self.tasks@;
        let ghost tv = task@;
        match self.position(&task.id) {
            Some(i) => {
                let mut tasks: Vec<Task> = Vec::new();
                std::mem::swap(&mut tasks, &mut self.tasks);
                tasks.set(i, task);
                self.tasks = tasks;
                proof {
                    let v = self.tasks@;
                    assert(v =~= old_v.update(i as int, tv_task_of(v, i as int)));
                    assert forall|a: int, b: int| 0 <= a < b < v.len() implies (#[trigger] v[a])@.id != (#[trigger] v[b])@.id by {
                        if a != i && b != i {
                            assert(old_v[a]@.id != old_v[b]@.id);
                        } else if a == i {
                            assert(old_v[a]@.id != old_v[b]@.id);
                        } else {
                            assert(old_v[a]@.id != old_v[b]@.id);
                        }
                    }
                }
                proof {
                    lemma_map_after_set(old_v, self.tasks@, i as int);
                }
            },
            None => {
                let mut tasks: Vec<Task> = Vec::new();
                std::mem::swap(&mut tasks, &mut self.tasks);
                tasks.push(task);
                proof {
                    lemma_map_after_push(old_v, tasks@);
                }
                self.tasks = tasks;
            },
        }
        Ok(())
    }

    fn get_task(&self, id: &TaskId) -> (r: Result<Option<Task>, StoreError>)
        ensures
            r matches Ok(found) && match found {
                Some(t) => self.task_map().contains_key(id@) && t@ == self.task_map()[id@],
                None => !self.task_map().contains_key(id@),
            },
    {
        proof {
            use_type_invariant(&*self);
        }
        match self.position(id) {
            Some(i) => {
                proof {
                    lemma_map_of_at(self.tasks@, i as int);
                }
                Ok(Some(self.tasks[i].clone()))
            },
            None => Ok(None),
        }
    }

    /// All stored tasks in listing order.
    fn list_tasks(&self) -> (r: Result<Vec<Task>, StoreError>)
        ensures
            r matches Ok(v) && is_listing(self.task_map(), None, v@),
    {
        proof {
            use_type_invariant(&*self);
        }
        Ok(sorted_listing(&self.tasks, None))
    }

    /// The stored tasks with the status, in listing order.
    fn list_tasks_by_status(&self, status: TaskStatus) -> (r: Result<Vec<Task>, StoreError>)
        ensures
            r matches Ok(v) && is_listing(self.task_map(), Some(status), v@),
    {
        proof {
            use_type_invariant(&*self);
        }
        Ok(sorted_listing(&self.tasks, Some(status)))
    }

    /// Gives each listed task its position as sort order, in turn; stops at the first id that
    /// names no task, with the orders given so far kept.
    fn reorder_tasks(&mut self, task_ids: &[TaskId]) -> (r: Result<(), StoreError>)
        ensures
            ({
                let ids = task_ids@.map_values(|s: String| s@);
                let f = first_missing(old(self).task_map(), ids, 0);
                &&& r is Ok <==> f == ids.len()
                &&& final(self).task_map() == reordered(old(self).task_map(), ids, f)
                &&& r matches Err(e) ==> (e matches StoreError::NotFound(x) && x@ == ids[f])
            }),
    {
        proof {
            use_type_invariant(&*self);
        }
        let ghost m0 = map_of(self.tasks@);
        let ghost ids = task_ids@.map_values(|s: String| s@);
        let mut index: usize = 0;
        while index < task_ids.len()
            invariant
                ids == task_ids@.map_values(|s: String| s@),
                m0 == old(self).task_map(),
                index <= task_ids@.len(),
                ids_unique(self.tasks@),
                first_missing(m0, ids, 0) == first_missing(m0, ids, index as int),
                map_of(self.tasks@) == reordered(m0, ids, index as int),
                forall|k: Seq<char>| m0.contains_key(k) <==> #[trigger] map_of(self.tasks@).contains_key(k),
            decreases task_ids@.len() - index,
        {
            let task_id = &task_ids[index];
            match self.position(task_id) {
                Some(i) => {
                    let ghost old_v = self.tasks@;
                    let mut tasks: Vec<Task> = Vec::new();
                std::mem::swap(&mut tasks, &mut self.tasks);
                    let mut t = tasks.remove(i);
                    t.sort_order = index as i64;
                    tasks.insert(i, t);
                    self.tasks = tasks;
                    proof {
                        assert(self.tasks@ =~= old_v.update(i as int, self.tasks@[i as int]));
                        assert forall|a: int, b: int| 0 <= a < b < self.tasks@.len() implies (#[trigger] self.tasks@[a])@.id != (#[trigger] self.tasks@[b])@.id by {
                            assert(old_v[a]@.id != old_v[b]@.id);
                        }
                        lemma_map_after_set(old_v, self.tasks@, i as int);
                        lemma_map_of_at(old_v, i as int);
                        assert(ids[index as int] == task_id@);
                        assert(m0.contains_key(ids[index as int]));
                        assert(first_missing(m0, ids, index as int) == first_missing(m0, ids, index + 1));
                        assert(map_of(self.tasks@) =~= reordered(m0, ids, index + 1));
                    }
                },
                None => {
                    proof {
                        assert(ids[index as int] == task_id@);
                        assert(!map_of(self.tasks@).contains_key(task_id@));
                        assert(!m0.contains_key(ids[index as int]));
                        assert(first_missing(m0, ids, index as int) == index);
                        assert(first_missing(m0, ids, 0) == index);
                        assert(map_of(self.tasks@) == reordered(m0, ids, index as int));
                    }
                    return Err(StoreError::NotFound(task_id.clone()));
                },
            }
            index = index + 1;
        }
        assert(first_missing(m0, ids, index as int) == index);
        Ok(())
    }

    /// Removes the task with the id; an id that names no task is reported as not found.
    fn delete_task(&mut self, id: &TaskId) -> (r: Result<(), StoreError>)
        ensures
            r is Ok <==> old(self).task_map().contains_key(id@),
            r is Ok ==> final(self).task_map() == old(self).task_map().remove(id@),
            r is Err ==> final(self).task_map() == old(self).task_map(),
            r matches Err(e) ==> (e matches StoreError::NotFound(x) && x@ == id@),
    {
        proof {
            use_type_invariant(&*self);
        }
        let ghost old_v = self.tasks@;
        match self.position(id) {
            Some(i) => {
                let mut tasks: Vec<Task> = Vec::new();
                std::mem::swap(&mut tasks, &mut self.tasks);
                tasks.remove(i);
                self.tasks = tasks;
                proof {
                    lemma_map_of_at(old_v, i as int);
                    lemma_map_after_remove(old_v, self.tasks@, i as int);
                }
                Ok(())
            },
            None => Err(StoreError::NotFound(id.clone())),
        }
    }
}

/// A write that changed no stored row names a task that is not stored.
pub fn require_row_changed(id: &TaskId, affected: usize) -> (r: Result<(), StoreError>)
    ensures
        affected == 0 ==> (r matches Err(StoreError::NotFound(k)) && k@ == id@),
        affected > 0 ==> r is Ok,
{
    if affected == 0 {
        Err(StoreError::NotFound(id.clone()))
    } else {
        Ok(())
    }
}

spec fn tv_task_of(v: Seq<Task>, i: int) -> Task {
    v[i]
}

proof fn lemma_map_after_set(old_v: Seq<Task>, v: Seq<Task>, i: int)
    requires
        ids_unique(old_v),
        ids_unique(v),
        0 <= i < old_v.len(),
        v.len() == old_v.len(),
        forall|j: int| 0 <= j < v.len() && j != i ==> v[j] == old_v[j],
        v[i]@.id == old_v[i]@.id,
    ensures
        map_of(v) == map_of(old_v).insert(v[i]@.id, v[i]@),
{
    let m = map_of(old_v).insert(v[i]@.id, v[i]@);
    assert forall|k: Seq<char>| map_of(v).contains_key(k) <==> m.contains_key(k) by {
        if has_id(v, k) {
            let j = choose|j: int| 0 <= j < v.len() && (#[trigger] v[j])@.id == k;
            if j != i {
                assert(old_v[j]@.id == k);
            }
        }
        if has_id(old_v, k) {
            let j = choose|j: int| 0 <= j < old_v.len() && (#[trigger] old_v[j])@.id == k;
            if j != i {
                assert(v[j]@.id == k);
            }
        }
        if k == v[i]@.id {
            assert(has_id(v, k));
        }
    }
    assert forall|k: Seq<char>| map_of(v).contains_key(k) implies map_of(v)[k] == m[k] by {
        let j = choose|j: int| 0 <= j < v.len() && (#[trigger] v[j])@.id == k;
        lemma_map_of_at(v, j);
        if j != i {
            lemma_map_of_at(old_v, j);
        }
    }
    assert(map_of(v) =~= m);
}

proof fn lemma_map_after_push(old_v: Seq<Task>, v: Seq<Task>)
    requires
        ids_unique(old_v),
        v.len() == old_v.len() + 1,
        forall|j: int| 0 <= j < old_v.len() ==> v[j] == old_v[j],
        !has_id(old_v, v[old_v.len() as int]@.id),
    ensures
        ids_unique(v),
        map_of(v) == map_of(old_v).insert(v[old_v.len() as int]@.id, v[old_v.len() as int]@),
{
    let n = old_v.len() as int;
    assert forall|a: int, b: int| 0 <= a < b < v.len() implies (#[trigger] v[a])@.id != (#[trigger] v[b])@.id by {
        if b == n {
            assert(old_v[a] == v[a]);
        } else {
            assert(old_v[a]@.id != old_v[b]@.id);
        }
    }
    let m = map_of(old_v).insert(v[n]@.id, v[n]@);
    assert forall|k: Seq<char>| map_of(v).contains_key(k) <==> m.contains_key(k) by {
        if has_id(v, k) {
            let j = choose|j: int| 0 <= j < v.len() && (#[trigger] v[j])@.id == k;
            if j != n {
                assert(old_v[j]@.id == k);
            }
        }
        if has_id(old_v, k) {
            let j = choose|j: int| 0 <= j < old_v.len() && (#[trigger] old_v[j])@.id == k;
            assert(v[j]@.id == k);
        }
        if k == v[n]@.id {
            assert(has_id(v, k));
        }
    }
    assert forall|k: Seq<char>| map_of(v).contains_key(k) implies map_of(v)[k] == m[k] by {
        let j = choose|j: int| 0 <= j < v.len() && (#[trigger] v[j])@.id == k;
        lemma_map_of_at(v, j);
        if j != n {
            lemma_map_of_at(old_v, j);
        }
    }
    assert(map_of(v) =~= m);
}

proof fn lemma_map_after_remove(old_v: Seq<Task>, v: Seq<Task>, i: int)
    requires
        ids_unique(old_v),
        0 <= i < old_v.len(),
        v == old_v.remove(i),
    ensures
        ids_unique(v),
        map_of(v) == map_of(old_v).remove(old_v[i]@.id),
{
    assert forall|a: int, b: int| 0 <= a < b < v.len() implies (#[trigger] v[a])@.id != (#[trigger] v[b])@.id by {
        let a0 = if a < i { a } else { a + 1 };
        let b0 = if b < i { b } else { b + 1 };
        assert(v[a] == old_v[a0]);
        assert(v[b] == old_v[b0]);
        assert(old_v[a0]@.id != old_v[b0]@.id);
    }
    let m = map_of(old_v).remove(old_v[i]@.id);
    assert forall|k: Seq<char>| map_of(v).contains_key(k) <==> m.contains_key(k) by {
        if has_id(v, k) {
            let j = choose|j: int| 0 <= j < v.len() && (#[trigger] v[j])@.id == k;
            let j0 = if j < i { j } else { j + 1 };
            assert(v[j] == old_v[j0]);
            assert(old_v[j0]@.id != old_v[i]@.id);
        }
        if has_id(old_v, k) && k != old_v[i]@.id {
            let j = choose|j: int| 0 <= j < old_v.len() && (#[trigger] old_v[j])@.id == k;
            let j1 = if j < i { j } else { j - 1 };
            assert(v[j1] == old_v[j]);
        }
    }
    assert forall|k: Seq<char>| map_of(v).contains_key(k) implies map_of(v)[k] == m[k] by {
        let j = choose|j: int| 0 <= j < v.len() && (#[trigger] v[j])@.id == k;
        let j0 = if j < i { j } else { j + 1 };
        assert(v[j] == old_v[j0]);
        lemma_map_of_at(v, j);
        lemma_map_of_at(old_v, j0);
    }
    assert(map_of(v) =~= m);
}

/// What is written is read back: after a task is stored, looking up its id gives it, and
/// every listing of the store holds it.
pub proof fn lemma_written_task_is_read_back(
    tasks: Map<Seq<char>, TaskView>,
    t: TaskView,
    listing: Seq<Task>,
)
    requires
        is_listing(tasks.insert(t.id, t), None, listing),
    ensures
        tasks.insert(t.id, t).contains_key(t.id),
        tasks.insert(t.id, t)[t.id] == t,
        exists|i: int| 0 <= i < listing.len() && (#[trigger] listing[i])@ == t,
{
    let m = tasks.insert(t.id, t);
    assert(m.contains_key(t.id) && status_filter(None, m[t.id]));
    let i = choose|i: int| 0 <= i < listing.len() && (#[trigger] listing[i])@.id == t.id;
    assert(listing[i]@ == m[listing[i]@.id]);
}

/// A deleted task is gone: looking up its id finds nothing and no listing holds it.
pub proof fn lemma_deleted_task_is_gone(
    tasks: Map<Seq<char>, TaskView>,
    id: Seq<char>,
    status: Option<TaskStatus>,
    listing: Seq<Task>,
)
    requires
        is_listing(tasks.remove(id), status, listing),
    ensures
        !tasks.remove(id).contains_key(id),
        forall|i: int| 0 <= i < listing.len() ==> (#[trigger] listing[i])@.id != id,
{
}

/// Reordering by distinct ids that all name stored tasks gives the task at position `j` the
/// sort order `j`, changes nothing else, and keeps the same tasks.
pub proof fn lemma_reorder_sets_positions(
    tasks: Map<Seq<char>, TaskView>,
    ids: Seq<Seq<char>>,
    n: int,
)
    requires
        0 <= n <= ids.len(),
        ids.len() <= i64::MAX,
        forall|i: int, j: int| 0 <= i < j < ids.len() ==> ids[i] != ids[j],
        forall|j: int| 0 <= j < ids.len() ==> tasks.contains_key(#[trigger] ids[j]),
    ensures
        ({
            let r = reordered(tasks, ids, n);
            &&& r.dom() == tasks.dom()
            &&& forall|j: int|
                0 <= j < n ==> r[#[trigger] ids[j]] == (TaskView { sort_order: j as i64, ..tasks[ids[j]] })
            &&& forall|k: Seq<char>|
                tasks.contains_key(k) && !ids.take(n).contains(k) ==> #[trigger] r[k] == tasks[k]
        }),
    decreases n,
{
    if n > 0 {
        lemma_reorder_sets_positions(tasks, ids, n - 1);
        let prev = reordered(tasks, ids, n - 1);
        let r = reordered(tasks, ids, n);
        let id = ids[n - 1];
        assert(prev.contains_key(id));
        assert(r.dom() =~= tasks.dom());
        assert(!ids.take(n - 1).contains(id)) by {
            if ids.take(n - 1).contains(id) {
                let q = choose|q: int| 0 <= q < n - 1 && #[trigger] ids.take(n - 1)[q] == id;
                assert(ids[q] == ids[n - 1]);
            }
        }
        assert forall|j: int| 0 <= j < n implies r[#[trigger] ids[j]] == (TaskView { sort_order: j as i64, ..tasks[ids[j]] }) by {
            if j < n - 1 {
                assert(ids[j] != id);
            }
        }
        assert forall|k: Seq<char>| tasks.contains_key(k) && !ids.take(n).contains(k) implies #[trigger] r[k] == tasks[k] by {
            assert(k != id) by {
                assert(ids.take(n)[n - 1] == id);
            }
            assert(!ids.take(n - 1).contains(k)) by {
                if ids.take(n - 1).contains(k) {
                    let q = choose|q: int| 0 <= q < n - 1 && #[trigger] ids.take(n - 1)[q] == k;
                    assert(ids.take(n)[q] == k);
                }
            }
        }
    } else {
        assert(reordered(tasks, ids, n).dom() =~= tasks.dom());
    }
}

} // verus!
