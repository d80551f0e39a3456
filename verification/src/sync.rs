//! Provider-neutral sync contracts and matching of remote tasks to local ones.
use crate::task::{opt_str_view, Task, TaskId};
use vstd::prelude::*;

verus! {

#[derive(Debug, Clone, Copy, PartialEq, Eq, Structural)]
pub enum SyncMode {
    Off,
    ImportOnly,
    TwoWay,
}

#[derive(Debug, PartialEq, Eq)]
pub enum ExternalProvider {
    TaskNotes,
    Calendar,
    Llm,
    Other(String),
}

pub enum ProviderView {
    TaskNotes,
    Calendar,
    Llm,
    Other(Seq<char>),
}

impl View for ExternalProvider {
    type V = ProviderView;

    open spec fn view(&self) -> ProviderView {
        match self {
            ExternalProvider::TaskNotes => ProviderView::TaskNotes,
            ExternalProvider::Calendar => ProviderView::Calendar,
            ExternalProvider::Llm => ProviderView::Llm,
            ExternalProvider::Other(s) => ProviderView::Other(s@),
        }
    }
}

impl Clone for ExternalProvider {
    fn clone(&self) -> (r: ExternalProvider)
        ensures
            r@ == self@,
    {
        match self {
            ExternalProvider::TaskNotes => ExternalProvider::TaskNotes,
            ExternalProvider::Calendar => ExternalProvider::Calendar,
            ExternalProvider::Llm => ExternalProvider::Llm,
            ExternalProvider::Other(s) => ExternalProvider::Other(s.clone()),
        }
    }
}

pub fn provider_eq(a: &ExternalProvider, b: &ExternalProvider) -> (r: bool)
    ensures
        r == (a@ == b@),
{
    match (a, b) {
        (ExternalProvider::TaskNotes, ExternalProvider::TaskNotes) => true,
        (ExternalProvider::Calendar, ExternalProvider::Calendar) => true,
        (ExternalProvider::Llm, ExternalProvider::Llm) => true,
        (ExternalProvider::Other(x), ExternalProvider::Other(y)) => *x == *y,
        _ => false,
    }
}

#[derive(Debug, PartialEq, Eq)]
pub struct ExternalLink {
    pub id: String,
    pub task_id: TaskId,
    pub provider: ExternalProvider,
    pub external_id: Option<String>,
    pub external_path: Option<String>,
    pub last_synced_at_ms: Option<i64>,
    pub sync_hash: Option<String>,
    pub sync_state: SyncState,
}

pub struct LinkView {
    pub id: Seq<char>,
    pub task_id: Seq<char>,
    pub provider: ProviderView,
    pub external_id: Option<Seq<char>>,
    pub external_path: Option<Seq<char>>,
    pub last_synced_at_ms: Option<i64>,
    pub sync_hash: Option<Seq<char>>,
    pub sync_state: SyncState,
}

impl View for ExternalLink {
    type V = LinkView;

    open spec fn view(&self) -> LinkView {
        LinkView {
            id: self.id@,
            task_id: self.task_id@,
            provider: self.provider@,
            external_id: opt_str_view(self.external_id),
            external_path: opt_str_view(self.external_path),
            last_synced_at_ms: self.last_synced_at_ms,
            sync_hash: opt_str_view(self.sync_hash),
            sync_state: self.sync_state,
        }
    }
}

impl Clone for ExternalLink {
    fn clone(&self) -> (r: ExternalLink)
        ensures
            r@ == self@,
    {
        ExternalLink {
            id: self.id.clone(),
            task_id: self.task_id.clone(),
            provider: self.provider.clone(),
            external_id: crate::task::clone_opt_string(&self.external_id),
            external_path: crate::task::clone_opt_string(&self.external_path),
            last_synced_at_ms: self.last_synced_at_ms,
            sync_hash: crate::task::clone_opt_string(&self.sync_hash),
            sync_state: self.sync_state,
        }
    }
}

#[derive(Debug, Clone, Copy, PartialEq, Eq, Structural)]
pub enum SyncState {
    Linked,
    PendingLocalCreate,
    PendingLocalUpdate,
    PendingRemoteUpdate,
    Conflict,
    DeletedRemote,
}

#[derive(Debug, Clone, PartialEq, Eq)]
pub enum SyncError {
    Disabled,
    Conflict(String),
    Provider(String),
}

#[derive(Debug, PartialEq, Eq)]
pub struct SyncPreview {
    pub creates: Vec<Task>,
    pub updates: Vec<Task>,
    pub conflicts: Vec<TaskId>,
}

#[derive(Debug, Clone, PartialEq, Eq)]
pub struct RemoteTaskIdentity {
    pub provider: ExternalProvider,
    pub external_id: Option<String>,
    pub external_path: Option<String>,
    pub todo_app_id: Option<TaskId>,
    pub title: String,
    pub content_hash: String,
}

#[derive(Debug, Clone, PartialEq, Eq)]
pub enum IdentityMatch {
    Linked(TaskId),
    PossibleTitleMatch(TaskId),
    NewRemote,
    Conflict(String),
}

pub enum MatchView {
    Linked(Seq<char>),
    PossibleTitleMatch(Seq<char>),
    NewRemote,
    Conflict(Seq<char>),
}

impl View for IdentityMatch {
    type V = MatchView;

    open spec fn view(&self) -> MatchView {
        match self {
            IdentityMatch::Linked(s) => MatchView::Linked(s@),
            IdentityMatch::PossibleTitleMatch(s) => MatchView::PossibleTitleMatch(s@),
            IdentityMatch::NewRemote => MatchView::NewRemote,
            IdentityMatch::Conflict(s) => MatchView::Conflict(s@),
        }
    }
}

pub open spec fn tasks_with_id(tasks: Seq<Task>, id: Seq<char>) -> Seq<Task> {
    tasks.filter(|t: Task| t.id@ == id)
}

pub open spec fn tasks_with_title(tasks: Seq<Task>, title: Seq<char>) -> Seq<Task> {
    tasks.filter(|t: Task| t.title@ == title)
}

pub open spec fn link_has_key(l: ExternalLink, provider: ProviderView, by_path: bool, key: Seq<char>) -> bool {
    l.provider@ == provider && if by_path {
        opt_str_view(l.external_path) == Some(key)
    } else {
        opt_str_view(l.external_id) == Some(key)
    }
}

/// Links of the provider whose external id (or, with `by_path`, external path) is `key`.
pub open spec fn links_with_key(
    links: Seq<ExternalLink>,
    provider: ProviderView,
    by_path: bool,
    key: Seq<char>,
) -> Seq<ExternalLink> {
    links.filter(|l: ExternalLink| link_has_key(l, provider, by_path, key))
}

/// Matching by external id or by external path: the one link's task, a conflict when several
/// links share the key, and no decision when none does.
pub open spec fn match_by_key(
    links: Seq<ExternalLink>,
    provider: ProviderView,
    by_path: bool,
    key: Option<Seq<char>>,
) -> Option<MatchView> {
    match key {
        Some(k) => {
            let ms = links_with_key(links, provider, by_path, k);
            if ms.len() == 1 {
                Some(MatchView::Linked(ms[0].task_id@))
            } else if ms.len() > 1 {
                Some(
                    MatchView::Conflict(
                        (if by_path {
                            "multiple links use external_path "@
                        } else {
                            "multiple links use external_id "@
                        }) + k,
                    ),
                )
            } else {
                None
            }
        },
        None => None,
    }
}

/// How a remote task relates to the local ones, by app id, then external id, then external
/// path; a title alone only suggests a match.
pub open spec fn identity_match(
    remote: RemoteTaskIdentity,
    links: Seq<ExternalLink>,
    tasks: Seq<Task>,
) -> MatchView {
    let by_app: Option<MatchView> = match remote.todo_app_id {
        Some(a) => {
            let n = tasks_with_id(tasks, a@).len();
            if n == 1 {
                Some(MatchView::Linked(a@))
            } else if n > 1 {
                Some(MatchView::Conflict("multiple local tasks use todo_app_id "@ + a@))
            } else {
                None
            }
        },
        None => None,
    };
    match by_app {
        Some(m) => m,
        None => match match_by_key(
            links,
            remote.provider@,
            false,
            opt_str_view(remote.external_id),
        ) {
            Some(m) => m,
            None => match match_by_key(
                links,
                remote.provider@,
                true,
                opt_str_view(remote.external_path),
            ) {
                Some(m) => m,
                None => {
                    let ts = tasks_with_title(tasks, remote.title@);
                    if ts.len() == 1 {
                        MatchView::PossibleTitleMatch(ts[0].id@)
                    } else if ts.len() == 0 {
                        MatchView::NewRemote
                    } else {
                        MatchView::Conflict("multiple local tasks have title "@ + remote.title@)
                    }
                },
            },
        },
    }
}

fn count_tasks_with_id(tasks: &[Task], id: &String) -> (n: usize)
    ensures
        n == tasks_with_id(tasks@, id@).len(),
{
    let ghost pred = |t: Task| t.id@ == id@;
    let mut n: usize = 0;
    for i in 0..tasks.len()
        invariant
            pred == (|t: Task| t.id@ == id@),
            n == tasks@.take(i as int).filter(pred).len(),
            n <= i,
    {
        proof {
            assert(tasks@.take(i + 1) =~= tasks@.take(i as int).push(tasks@[i as int]));
            tasks@.take(i as int).lemma_filter_push(tasks@[i as int], pred);
        }
        if tasks[i].id == *id {
            n = n + 1;
        }
    }
    assert(tasks@.take(tasks@.len() as int) =~= tasks@);
    n
}

/// Number of tasks with the given title, and the first such task's index.
fn find_tasks_with_title(tasks: &[Task], title: &String) -> (r: (usize, usize))
    ensures
        r.0 == tasks_with_title(tasks@, title@).len(),
        r.0 > 0 ==> r.1 < tasks@.len() && tasks@[r.1 as int] == tasks_with_title(tasks@, title@)[0],
{
    let ghost pred = |t: Task| t.title@ == title@;
    let mut n: usize = 0;
    let mut first: usize = 0;
    for i in 0..tasks.len()
        invariant
            pred == (|t: Task| t.title@ == title@),
            n == tasks@.take(i as int).filter(pred).len(),
            n <= i,
            n > 0 ==> first < i && tasks@[first as int] == tasks@.take(i as int).filter(pred)[0],
    {
        proof {
            assert(tasks@.take(i + 1) =~= tasks@.take(i as int).push(tasks@[i as int]));
            tasks@.take(i as int).lemma_filter_push(tasks@[i as int], pred);
        }
        if tasks[i].title == *title {
            if n == 0 {
                first = i;
            }
            n = n + 1;
        }
    }
    assert(tasks@.take(tasks@.len() as int) =~= tasks@);
    (n, first)
}

fn link_matches(link: &ExternalLink, provider: &ExternalProvider, by_path: bool, key: &String) -> (r:
    bool)
    ensures
        r == link_has_key(*link, provider@, by_path, key@),
{
    if !provider_eq(&link.provider, provider) {
        return false;
    }
    let field = if by_path {
        &link.external_path
    } else {
        &link.external_id
    };
    match field {
        Some(value) => *value == *key,
        None => false,
    }
}

/// Number of links carrying the key, and the first such link's index.
fn find_links_with_key(
    links: &[ExternalLink],
    provider: &ExternalProvider,
    by_path: bool,
    key: &String,
) -> (r: (usize, usize))
    ensures
        r.0 == links_with_key(links@, provider@, by_path, key@).len(),
        r.0 > 0 ==> r.1 < links@.len() && links@[r.1 as int] == links_with_key(
            links@,
            provider@,
            by_path,
            key@,
        )[0],
{
    let ghost pred = |l: ExternalLink| link_has_key(l, provider@, by_path, key@);
    let mut n: usize = 0;
    let mut first: usize = 0;
    for i in 0..links.len()
        invariant
            pred == (|l: ExternalLink| link_has_key(l, provider@, by_path, key@)),
            n == links@.take(i as int).filter(pred).len(),
            n <= i,
            n > 0 ==> first < i && links@[first as int] == links@.take(i as int).filter(pred)[0],
    {
        proof {
            assert(links@.take(i + 1) =~= links@.take(i as int).push(links@[i as int]));
            links@.take(i as int).lemma_filter_push(links@[i as int], pred);
        }
        if link_matches(&links[i], provider, by_path, key) {
            if n == 0 {
                first = i;
            }
            n = n + 1;
        }
    }
    assert(links@.take(links@.len() as int) =~= links@);
    (n, first)
}

fn prefixed(prefix: &str, value: &String) -> (r: String)
    ensures
        r@ == prefix@ + value@,
{
    let mut r = String::from_str(prefix);
    r.append(value.as_str());
    r
}

fn match_links_by_key(
    links: &[ExternalLink],
    provider: &ExternalProvider,
    by_path: bool,
    key: &Option<String>,
) -> (r: Option<IdentityMatch>)
    ensures
        match r {
            Some(m) => match_by_key(links@, provider@, by_path, opt_str_view(*key)) == Some(m@),
            None => match_by_key(links@, provider@, by_path, opt_str_view(*key)) is None,
        },
{
    match key {
        Some(k) => {
            let (n, first) = find_links_with_key(links, provider, by_path, k);
            if n == 1 {
                Some(IdentityMatch::Linked(links[first].task_id.clone()))
            } else if n > 1 {
                let message = if by_path {
                    prefixed("multiple links use external_path ", k)
                } else {
                    prefixed("multiple links use external_id ", k)
                };
                Some(IdentityMatch::Conflict(message))
            } else {
                None
            }
        },
        None => None,
    }
}

pub fn match_remote_identity(
    remote: &RemoteTaskIdentity,
    links: &[ExternalLink],
    local_tasks: &[Task],
) -> (r: IdentityMatch)
    ensures
        r@ == identity_match(*remote, links@, local_tasks@),
{
    if let Some(todo_app_id) = &remote.todo_app_id {
        let matching_tasks = count_tasks_with_id(local_tasks, todo_app_id);
        if matching_tasks == 1 {
            return IdentityMatch::Linked(todo_app_id.clone());
        }
        if matching_tasks > 1 {
            return IdentityMatch::Conflict(
                prefixed("multiple local tasks use todo_app_id ", todo_app_id),
            );
        }
    }
    if let Some(m) = match_links_by_key(links, &remote.provider, false, &remote.external_id) {
        return m;
    }
    if let Some(m) = match_links_by_key(links, &remote.provider, true, &remote.external_path) {
        return m;
    }
    let (n, first) = find_tasks_with_title(local_tasks, &remote.title);
    if n == 1 {
        IdentityMatch::PossibleTitleMatch(local_tasks[first].id.clone())
    } else if n == 0 {
        IdentityMatch::NewRemote
    } else {
        IdentityMatch::Conflict(prefixed("multiple local tasks have title ", &remote.title))
    }
}

/// A remote task with no app id, external id or external path is never linked by its title
/// alone: at most a possible title match is reported.
pub proof fn lemma_title_alone_never_links(
    remote: RemoteTaskIdentity,
    links: Seq<ExternalLink>,
    tasks: Seq<Task>,
)
    requires
        remote.todo_app_id is None,
        remote.external_id is None,
        remote.external_path is None,
    ensures
        !(identity_match(remote, links, tasks) is Linked),
{
}

/// The app id decides first: when exactly one local task has the remote's app id, the remote
/// is linked to it whatever the links say.
pub proof fn lemma_app_id_links_first(
    remote: RemoteTaskIdentity,
    links: Seq<ExternalLink>,
    tasks: Seq<Task>,
)
    requires
        remote.todo_app_id is Some,
        tasks_with_id(tasks, remote.todo_app_id->0@).len() == 1,
    ensures
        identity_match(remote, links, tasks) == MatchView::Linked(remote.todo_app_id->0@),
{
}

/// Matching is by key and provider: a remote whose external id is carried by exactly one link
/// of its provider is linked to that link's task, whatever its path or title (a moved or
/// renamed note keeps its task), unless its app id already decided.
pub proof fn lemma_external_id_survives_moves(
    remote: RemoteTaskIdentity,
    link: ExternalLink,
    tasks: Seq<Task>,
)
    requires
        remote.todo_app_id is None,
        remote.external_id is Some,
        link.provider@ == remote.provider@,
        opt_str_view(link.external_id) == opt_str_view(remote.external_id),
    ensures
        identity_match(remote, seq![link], tasks) == MatchView::Linked(link.task_id@),
{
    let pred = |l: ExternalLink| link_has_key(l, remote.provider@, false, remote.external_id->0@);
    assert(seq![link] =~= Seq::<ExternalLink>::empty().push(link));
    Seq::<ExternalLink>::empty().lemma_filter_push(link, pred);
    assert(Seq::<ExternalLink>::empty().filter(pred) =~= Seq::<ExternalLink>::empty());
}

pub trait TaskSyncProvider {
    fn mode(&self) -> SyncMode;

    fn preview(&self) -> Result<SyncPreview, SyncError>;

    fn import_tasks(&self) -> Result<Vec<Task>, SyncError>;

    fn push_tasks(&self, tasks: &[Task]) -> Result<(), SyncError>;
}

} // verus!
