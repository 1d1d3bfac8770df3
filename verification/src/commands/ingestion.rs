//! The queue of what is to be read, and what became of it.
//!
//! One worker takes the tasks in order. Two tasks that cover the same are one; a task that covers
//! everything takes the place of those that cover a part. A forced second reading is something
//! else and is never swallowed.
use crate::domain::copy_text;
use crate::text::{join, joined, same, texts};
use vstd::prelude::*;

verus! {

/// How long a full reading stays fresh, in milliseconds.
pub const FRESHNESS_MS: u64 = 300_000;

/// What a task covers.
pub enum IngestScope {
    ReconcileAll,
    ReconcileSource(String),
    RefreshSession(String),
    ReingestSource(String),
}

/// What a task covers, as a mathematical value.
pub enum Scope {
    ReconcileAll,
    ReconcileSource(Seq<char>),
    RefreshSession(Seq<char>),
    ReingestSource(Seq<char>),
}

impl DeepView for IngestScope {
    type V = Scope;

    open spec fn deep_view(&self) -> Scope {
        match *self {
            IngestScope::ReconcileAll => Scope::ReconcileAll,
            IngestScope::ReconcileSource(id) => Scope::ReconcileSource(id@),
            IngestScope::RefreshSession(id) => Scope::RefreshSession(id@),
            IngestScope::ReingestSource(id) => Scope::ReingestSource(id@),
        }
    }
}

impl Scope {
    /// The name of a task.
    pub open spec fn name(self) -> Seq<char> {
        match self {
            Scope::ReconcileAll => "reconcile_all"@,
            Scope::ReconcileSource(id) => "reconcile_source:"@ + id,
            Scope::RefreshSession(id) => "refresh_session:"@ + id,
            Scope::ReingestSource(id) => "reingest_source:"@ + id,
        }
    }

    /// Whether a full reading covers the task.
    pub open spec fn partial(self) -> bool {
        self is ReconcileSource || self is RefreshSession
    }
}

fn named(kind: &str, id: &str) -> (r: String)
    ensures
        r@ == kind@ + id@,
{
    let mut s: String = kind.to_owned();
    s.append(id);
    s
}

impl IngestScope {
    /// The name of the task.
    pub fn label(&self) -> (r: String)
        ensures
            r@ == self.deep_view().name(),
    {
        match self {
            IngestScope::ReconcileAll => "reconcile_all".to_owned(),
            IngestScope::ReconcileSource(id) => named("reconcile_source:", id.as_str()),
            IngestScope::RefreshSession(id) => named("refresh_session:", id.as_str()),
            IngestScope::ReingestSource(id) => named("reingest_source:", id.as_str()),
        }
    }

    fn same_as(&self, o: &IngestScope) -> (r: bool)
        ensures
            r == (self.deep_view() == o.deep_view()),
    {
        match (self, o) {
            (IngestScope::ReconcileAll, IngestScope::ReconcileAll) => true,
            (IngestScope::ReconcileSource(a), IngestScope::ReconcileSource(b)) => same(
                a.as_str(),
                b.as_str(),
            ),
            (IngestScope::RefreshSession(a), IngestScope::RefreshSession(b)) => same(
                a.as_str(),
                b.as_str(),
            ),
            (IngestScope::ReingestSource(a), IngestScope::ReingestSource(b)) => same(
                a.as_str(),
                b.as_str(),
            ),
            _ => false,
        }
    }

    fn copy(&self) -> (r: IngestScope)
        ensures
            r == *self,
    {
        match self {
            IngestScope::ReconcileAll => IngestScope::ReconcileAll,
            IngestScope::ReconcileSource(id) => IngestScope::ReconcileSource(id.clone()),
            IngestScope::RefreshSession(id) => IngestScope::RefreshSession(id.clone()),
            IngestScope::ReingestSource(id) => IngestScope::ReingestSource(id.clone()),
        }
    }
}

/// What became of a task.
pub struct IngestTaskStatus {
    pub scope: String,
    pub started_at: Option<String>,
    pub finished_at: Option<String>,
    pub discovered: usize,
    pub messages: i64,
    pub error: Option<String>,
}

impl IngestTaskStatus {
    /// The same status.
    pub fn copy(&self) -> (r: IngestTaskStatus)
        ensures
            r == *self,
    {
        IngestTaskStatus {
            scope: self.scope.clone(),
            started_at: copy_text(&self.started_at),
            finished_at: copy_text(&self.finished_at),
            discovered: self.discovered,
            messages: self.messages,
            error: copy_text(&self.error),
        }
    }
}

/// The queue, the worker and the last status. Times are milliseconds of a clock that never goes
/// back.
pub struct IngestionCoordinator {
    pub running: bool,
    pub queue: Vec<IngestScope>,
    pub status: Option<IngestTaskStatus>,
    pub last_success: Option<u64>,
}

/// The tasks that a full reading leaves in the queue.
pub open spec fn kept(queue: Seq<Scope>) -> Seq<Scope> {
    queue.filter(|s: Scope| !s.partial())
}

/// The queue after a task was added.
pub open spec fn with_task(queue: Seq<Scope>, s: Scope) -> Seq<Scope> {
    if queue.contains(s) {
        queue
    } else if s is ReconcileAll {
        kept(queue).push(s)
    } else {
        queue.push(s)
    }
}

impl IngestionCoordinator {
    /// The queued tasks, in order.
    pub open spec fn tasks(self) -> Seq<Scope> {
        self.queue.deep_view()
    }

    /// No task is queued twice, and none waits without a worker.
    pub open spec fn well_formed(self) -> bool {
        self.tasks().no_duplicates() && (!self.running ==> self.tasks().len() == 0)
    }

    /// Whether the last full reading is too long ago.
    pub open spec fn stale(self, now: u64) -> bool {
        match self.last_success {
            Some(at) => now - at >= FRESHNESS_MS,
            None => true,
        }
    }
}

impl Default for IngestionCoordinator {
    fn default() -> (r: IngestionCoordinator)
        ensures
            r.well_formed(),
            !r.running,
            r.tasks() == Seq::<Scope>::empty(),
            r.status is None,
            r.last_success is None,
    {
        let r = IngestionCoordinator {
            running: false,
            queue: Vec::new(),
            status: None,
            last_success: None,
        };
        assert(r.tasks() =~= Seq::<Scope>::empty());
        r
    }
}

proof fn keeping_makes_no_duplicates(queue: Seq<Scope>)
    requires
        queue.no_duplicates(),
    ensures
        kept(queue).no_duplicates(),
        forall|s: Scope| kept(queue).contains(s) ==> queue.contains(s),
    decreases queue.len(),
{
    reveal(Seq::filter);
    let wanted = |s: Scope| !s.partial();
    if queue.len() > 0 {
        let front = queue.drop_last();
        let last = queue.last();
        assert(forall|i: int, j: int|
            0 <= i < front.len() && 0 <= j < front.len() && i != j ==> front[i] != front[j]) by {
            assert(forall|i: int| 0 <= i < front.len() ==> front[i] == queue[i]);
        }
        keeping_makes_no_duplicates(front);
        assert forall|s: Scope| kept(queue).contains(s) implies queue.contains(s) by {
            let k = choose|k: int| 0 <= k < kept(queue).len() && kept(queue)[k] == s;
            if k < kept(front).len() {
                assert(kept(front)[k] == s);
                assert(front.contains(s));
                let m = choose|m: int| 0 <= m < front.len() && front[m] == s;
                assert(queue[m] == s);
            } else {
                assert(s == last);
                assert(queue[queue.len() - 1] == last);
            }
        }
        if wanted(last) {
            let a = kept(front);
            assert(kept(queue) == a.push(last));
            assert forall|i: int, j: int|
                0 <= i < a.push(last).len() && 0 <= j < a.push(last).len() && i
                    != j implies a.push(last)[i] != a.push(last)[j] by {
                if i == a.len() || j == a.len() {
                    let k = if i == a.len() {
                        j
                    } else {
                        i
                    };
                    assert(a.contains(a[k]));
                    assert(front.contains(a[k]));
                    let m = choose|m: int| 0 <= m < front.len() && front[m] == a[k];
                    assert(queue[m] == a[k] && queue[queue.len() - 1] == last);
                }
            }
        }
    }
}

impl IngestionCoordinator {
    /// Adds a task. Returns whether a worker has to be started for it.
    pub fn enqueue(&mut self, scope: IngestScope) -> (r: bool)
        requires
            old(self).well_formed(),
        ensures
            final(self).well_formed(),
            final(self).tasks() == with_task(old(self).tasks(), scope.deep_view()),
            r == (!old(self).running && !old(self).tasks().contains(scope.deep_view())),
            final(self).running == (old(self).running || r),
            final(self).status == old(self).status,
            final(self).last_success == old(self).last_success,
    {
        let ghost before = self.tasks();
        let ghost s = scope.deep_view();
        let mut i: usize = 0;
        while i < self.queue.len()
            invariant
                i <= self.queue@.len(),
                *self == *old(self),
                old(self).well_formed(),
                before == self.tasks(),
                s == scope.deep_view(),
                forall|k: int| 0 <= k < i ==> #[trigger] before[k] != s,
            decreases self.queue@.len() - i,
        {
            assert(before[i as int] == self.queue@[i as int].deep_view());
            if self.queue[i].same_as(&scope) {
                assert(before.contains(s));
                return false;
            }
            i = i + 1;
        }
        assert(!before.contains(s));
        if matches!(scope, IngestScope::ReconcileAll) {
            let mut left: Vec<IngestScope> = Vec::new();
            let mut j: usize = 0;
            proof {
                reveal(Seq::filter);
            }
            assert(before.take(0) =~= Seq::<Scope>::empty());
            assert(left.deep_view() =~= kept(before.take(0)));
            while j < self.queue.len()
                invariant
                    j <= self.queue@.len(),
                    *self == *old(self),
                    before == self.tasks(),
                    left.deep_view() == kept(before.take(j as int)),
                decreases self.queue@.len() - j,
            {
                proof {
                    reveal(Seq::filter);
                }
                assert(before.take(j + 1).drop_last() =~= before.take(j as int));
                assert(before.take(j + 1).last() == self.queue@[j as int].deep_view());
                let partial: bool = matches!(
                    self.queue[j],
                    IngestScope::ReconcileSource(_) | IngestScope::RefreshSession(_)
                );
                if !partial {
                    let ghost so_far = left.deep_view();
                    left.push(self.queue[j].copy());
                    assert(left.deep_view() =~= so_far.push(before[j as int]));
                }
                j = j + 1;
            }
            assert(before.take(j as int) =~= before);
            self.queue = left;
            proof {
                keeping_makes_no_duplicates(before);
            }
        }
        let ghost rest = self.tasks();
        assert(!rest.contains(s));
        self.queue.push(scope);
        assert(self.tasks() =~= rest.push(s));
        assert(rest.push(s).no_duplicates()) by {
            assert forall|a: int, b: int|
                0 <= a < rest.push(s).len() && 0 <= b < rest.push(s).len() && a
                    != b implies rest.push(s)[a] != rest.push(s)[b] by {
                if a == rest.len() {
                    assert(rest.contains(rest[b]));
                } else if b == rest.len() {
                    assert(rest.contains(rest[a]));
                }
            }
        }
        if self.running {
            false
        } else {
            self.running = true;
            true
        }
    }

    /// Takes the next task, which starts now; with none left the worker stops.
    pub fn next(&mut self, now: &str) -> (r: Option<IngestScope>)
        requires
            old(self).well_formed(),
        ensures
            final(self).well_formed(),
            final(self).last_success == old(self).last_success,
            if old(self).tasks().len() == 0 {
                &&& r is None
                &&& !final(self).running
                &&& final(self).queue == old(self).queue
                &&& final(self).status == old(self).status
            } else {
                &&& r matches Some(s) && s.deep_view() == old(self).tasks()[0]
                &&& final(self).running == old(self).running
                &&& final(self).tasks() == old(self).tasks().drop_first()
                &&& final(self).status matches Some(t) && t.scope@ == old(self).tasks()[0].name()
                    && t.started_at.deep_view() == Some(now@) && t.finished_at is None
                    && t.discovered == 0 && t.messages == 0 && t.error is None
            },
    {
        let ghost before = self.tasks();
        assert(before.len() == self.queue@.len());
        if self.queue.len() == 0 {
            self.running = false;
            return None;
        }
        let scope = self.queue.remove(0);
        assert(self.tasks() =~= before.drop_first());
        assert(before.drop_first().no_duplicates()) by {
            assert(forall|i: int|
                0 <= i < before.drop_first().len() ==> before.drop_first()[i] == before[i + 1]);
        }
        self.status = Some(
            IngestTaskStatus {
                scope: scope.label(),
                started_at: Some(now.to_owned()),
                finished_at: None,
                discovered: 0,
                messages: 0,
                error: None,
            },
        );
        Some(scope)
    }

    /// A task ended. Only a full reading without an error makes everything fresh.
    pub fn finish(
        &mut self,
        discovered: usize,
        messages: i64,
        error: Option<String>,
        is_full_reconcile: bool,
        now: &str,
        at: u64,
    )
        ensures
            final(self).running == old(self).running,
            final(self).queue == old(self).queue,
            final(self).last_success == (if is_full_reconcile && error is None {
                Some(at)
            } else {
                old(self).last_success
            }),
            match old(self).status {
                None => final(self).status is None,
                Some(t) => final(self).status matches Some(u) && u == (IngestTaskStatus {
                    finished_at: u.finished_at,
                    discovered,
                    messages,
                    error,
                    ..t
                }) && u.finished_at.deep_view() == Some(now@),
            },
    {
        let failed: bool = error.is_some();
        let status: Option<IngestTaskStatus> = match &self.status {
            Some(t) => Some(
                IngestTaskStatus {
                    scope: t.scope.clone(),
                    started_at: copy_text(&t.started_at),
                    finished_at: Some(now.to_owned()),
                    discovered,
                    messages,
                    error,
                },
            ),
            None => None,
        };
        self.status = status;
        if is_full_reconcile && !failed {
            self.last_success = Some(at);
        }
    }

    /// What became of the last task.
    pub fn status(&self) -> (r: Option<IngestTaskStatus>)
        ensures
            r == self.status,
    {
        match &self.status {
            Some(t) => Some(t.copy()),
            None => None,
        }
    }

    /// Whether a return to the foreground should start a full reading.
    pub fn is_stale(&self, now: u64) -> (r: bool)
        ensures
            r == self.stale(now),
    {
        match self.last_success {
            Some(at) => now >= at && now - at >= FRESHNESS_MS,
            None => true,
        }
    }

    /// The application came back to the foreground: a full reading is queued where the last one is
    /// too long ago. Returns whether it was queued, and whether a worker has to be started.
    pub fn app_foreground(&mut self, now: u64) -> (r: (bool, bool))
        requires
            old(self).well_formed(),
        ensures
            final(self).well_formed(),
            r.0 == old(self).stale(now),
            if old(self).stale(now) {
                &&& final(self).tasks() == with_task(old(self).tasks(), Scope::ReconcileAll)
                &&& r.1 == (!old(self).running && !old(self).tasks().contains(Scope::ReconcileAll))
            } else {
                !r.1 && *final(self) == *old(self)
            },
    {
        if self.is_stale(now) {
            let start = self.enqueue(IngestScope::ReconcileAll);
            (true, start)
        } else {
            (false, false)
        }
    }
}

// ---------------------------------------------------------------------------
// Outcomes
// ---------------------------------------------------------------------------

/// How a task went.
pub enum ScopeRun {
    /// Everything was read, but for what failed.
    Report { discovered: usize, messages: i64, failures: Vec<String> },
    /// A source was read.
    Source { discovered: usize, messages: i64 },
    /// The source is not there any more.
    NoSource,
    /// A session was read.
    Session { messages: i64 },
    /// The task broke off.
    Failed { error: String },
}

/// What is noted of a task: how much was found, how many messages came, and what went wrong.
pub fn run_scope(run: &ScopeRun) -> (r: (usize, i64, Option<String>))
    ensures
        match *run {
            ScopeRun::Report { discovered, messages, failures } => r.0 == discovered && r.1
                == messages && r.2.deep_view() == (if failures@.len() == 0 {
                None
            } else {
                Some(joined(texts(failures@), "; "@))
            }),
            ScopeRun::Source { discovered, messages } => r == (
                discovered,
                messages,
                None::<String>,
            ),
            ScopeRun::NoSource => r == (0usize, 0i64, None::<String>),
            ScopeRun::Session { messages } => r == (0usize, messages, None::<String>),
            ScopeRun::Failed { error } => r.0 == 0 && r.1 == 0 && r.2.deep_view() == Some(error@),
        },
{
    match run {
        ScopeRun::Report { discovered, messages, failures } => {
            let error: Option<String> = if failures.len() == 0 {
                None
            } else {
                Some(join(failures, "; "))
            };
            (*discovered, *messages, error)
        },
        ScopeRun::Source { discovered, messages } => (*discovered, *messages, None),
        ScopeRun::NoSource => (0, 0, None),
        ScopeRun::Session { messages } => (0, *messages, None),
        ScopeRun::Failed { error } => (0, 0, Some(error.clone())),
    }
}

// ---------------------------------------------------------------------------
// Laws
// ---------------------------------------------------------------------------

/// A full reading takes the place of every task that covers a part, and of no forced second
/// reading.
pub proof fn a_full_reading_keeps_what_is_forced(queue: Seq<Scope>, s: Scope)
    requires
        !queue.contains(Scope::ReconcileAll),
    ensures
        s.partial() ==> !with_task(queue, Scope::ReconcileAll).contains(s),
        s is ReingestSource && queue.contains(s) ==> with_task(
            queue,
            Scope::ReconcileAll,
        ).contains(s),
{
    let wanted = |x: Scope| !x.partial();
    let r = kept(queue);
    let all = r.push(Scope::ReconcileAll);
    if s.partial() && all.contains(s) {
        let k = choose|k: int| 0 <= k < all.len() && all[k] == s;
        if k < r.len() {
            queue.lemma_filter_pred(wanted, k);
            assert(wanted(r[k]));
        }
    }
    if s is ReingestSource && queue.contains(s) {
        let k = choose|k: int| 0 <= k < queue.len() && queue[k] == s;
        queue.lemma_filter_contains(wanted, k);
        assert(r.contains(s));
        let m = choose|m: int| 0 <= m < r.len() && r[m] == s;
        assert(all[m] == s);
    }
}

/// Adding a task a second time changes nothing.
pub proof fn adding_twice_is_adding_once(queue: Seq<Scope>, s: Scope)
    ensures
        with_task(with_task(queue, s), s) == with_task(queue, s),
        with_task(queue, s).contains(s),
{
    let once = with_task(queue, s);
    if !queue.contains(s) {
        assert(once[once.len() - 1] == s);
    }
    assert(once.contains(s));
}

} // verus!
