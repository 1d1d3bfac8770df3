//! Updating the context of a workstream.
//!
//! [`update_workstream`] decides on the rows as they are: which sessions are taken in, which of
//! them fit into one request, and what is asked. [`commit_workstream_update`] writes everything
//! that follows from the answer together, provided that nothing it was based on has changed.
use crate::bytes::byte_len;
use crate::context::diagnostics::ContextOperation;
use crate::context::launch::{
    begin_update, configured, launch_fault, moved, noted, require_cli, CliExtractor,
    ContextLaunchConfig, ContextUpdateStatus,
};
use crate::context::parts::{
    affected_sessions, readers_of, targets_of, ReadOnlySession, Reader, Target, TargetSession,
};
use crate::context::select::{
    little_enough, renders, select_workstream_inputs, too_much, workstream_input, workstream_room,
    WorkstreamRequest,
};
use crate::context::session::{
    conflict, invalid_output, is_still_there, still_there,
};
use crate::context::views::revision_of;
use crate::error::{other, AppError, ContextFault, Fault};
use crate::store::{
    items_of, message_ids, messages_of, unowned, workstream_in, ContextRow, Fields, ItemRow,
    Revisions, SessionContextFields, SessionMessage, Store, Taken, WorkstreamContextState,
    WorkstreamSessionFrontier,
};
use crate::sync::{
    ContextUpdateOutput, Draft, InputLimits, Prompt, PromptInput, SessionContextDraft,
};
use crate::text::{same, texts};
use vstd::prelude::*;

verus! {

/// What became of an update of a workstream.
pub struct WorkstreamUpdateOutcome {
    pub workstream_id: String,
    pub status: ContextUpdateStatus,
    pub context_revision: i64,
    pub updated_sessions: Vec<String>,
    pub mutations_applied: usize,
    /// How many sessions did not fit and still wait.
    pub remaining_pending: usize,
}

/// A question to a model about a workstream, with what the answer rests on.
pub struct WorkstreamAsk {
    pub cli: CliExtractor,
    pub workstream_id: String,
    pub prompt: Prompt,
    pub snapshot: WorkstreamContextState,
    pub included: Vec<TargetSession>,
    pub read_only: Vec<ReadOnlySession>,
    pub expected_targets: Vec<String>,
    pub allowed_items: Vec<String>,
    pub target_count: usize,
}

/// What is to be done about a workstream.
pub enum WorkstreamStep {
    Done(WorkstreamUpdateOutcome),
    Ask(WorkstreamAsk),
}

// ---------------------------------------------------------------------------
// Checking
// ---------------------------------------------------------------------------

/// Why a target no longer is what the answer rests on.
pub open spec fn target_fault(store: Store, t: Target) -> Option<Seq<char>> {
    let id = t.session.id@;
    let ids = message_ids(messages_of(store.messages@, id));
    if revision_of(store.summary(id)) != revision_of(t.existing) {
        Some("会话 "@ + id + " 的摘要已变化，请重新更新"@)
    } else if store.reading(id).0 != t.generation {
        Some("会话 "@ + id + " 的对话已改写，请重新更新"@)
    } else if ids.len() < t.from + t.messages.len() || !still_there(
        ids,
        t.from as int,
        message_ids(t.messages),
    ) {
        Some("会话内容已变化，请重新更新"@)
    } else {
        None
    }
}

/// Why a session that only showed its summary no longer is what the answer rests on.
pub open spec fn reader_fault(store: Store, r: Reader) -> Option<Seq<char>> {
    if revision_of(store.summary(r.session_id)) != revision_of(r.context) || store.reading(
        r.session_id,
    ) != (r.generation, r.latest_message_seq) {
        Some("会话 "@ + r.session_id + " 的摘要或对话已变化，请重新更新"@)
    } else {
        None
    }
}

/// Why the first of the targets with a fault no longer is what the answer rests on.
pub open spec fn targets_fault(store: Store, targets: Seq<Target>) -> Option<Seq<char>>
    decreases targets.len(),
{
    if targets.len() == 0 {
        None
    } else {
        match targets_fault(store, targets.drop_last()) {
            Some(f) => Some(f),
            None => target_fault(store, targets.last()),
        }
    }
}

/// Why the first of the readers with a fault no longer is what the answer rests on.
pub open spec fn readers_fault(store: Store, readers: Seq<Reader>) -> Option<Seq<char>>
    decreases readers.len(),
{
    if readers.len() == 0 {
        None
    } else {
        match readers_fault(store, readers.drop_last()) {
            Some(f) => Some(f),
            None => reader_fault(store, readers.last()),
        }
    }
}

/// Why an answer comes too late: the first thing it rests on that has changed.
pub open spec fn commit_fault(
    store: Store,
    workstream: Seq<char>,
    snapshot: Revisions,
    targets: Seq<Target>,
    readers: Seq<Reader>,
) -> Option<Seq<char>> {
    let now = store.revisions(workstream);
    if now.context != snapshot.context || now.input != snapshot.input {
        Some("Workstream 状态已变化，请重新更新"@)
    } else {
        match targets_fault(store, targets) {
            Some(f) => Some(f),
            None => readers_fault(store, readers),
        }
    }
}

/// The counters of a target leave room for what an update adds.
pub open spec fn target_fits(t: Target) -> bool {
    0 <= t.from && t.from + t.messages.len() <= i64::MAX && revision_of(t.existing) < i64::MAX
}

/// The counters of a session that only shows its summary leave room for what an update adds.
pub open spec fn reader_fits(r: Reader) -> bool {
    revision_of(r.context) < i64::MAX
}

/// All counters leave room for what an update adds.
pub open spec fn counters_fit(
    snapshot: Revisions,
    targets: Seq<Target>,
    readers: Seq<Reader>,
) -> bool {
    &&& snapshot.context < i64::MAX
    &&& forall|i: int| 0 <= i < targets.len() ==> target_fits(#[trigger] targets[i])
    &&& forall|i: int| 0 <= i < readers.len() ==> reader_fits(#[trigger] readers[i])
}

fn known_revision(c: &Option<crate::store::SessionContextRecord>) -> (r: i64)
    ensures
        r == revision_of(c.deep_view()),
{
    match c {
        Some(x) => x.revision,
        None => 0,
    }
}

/// Whether all counters leave room for what an update adds.
pub fn do_counters_fit(ask: &WorkstreamAsk) -> (r: bool)
    ensures
        r == counters_fit(
            ask.snapshot.deep_view(),
            ask.included.deep_view(),
            ask.read_only.deep_view(),
        ),
{
    let ghost targets = ask.included.deep_view();
    let ghost readers = ask.read_only.deep_view();
    if ask.snapshot.context_revision == i64::MAX {
        return false;
    }
    let mut i: usize = 0;
    while i < ask.included.len()
        invariant
            i <= ask.included@.len(),
            targets == ask.included.deep_view(),
            forall|k: int| 0 <= k < i ==> target_fits(#[trigger] targets[k]),
        decreases ask.included@.len() - i,
    {
        assert(targets[i as int] == ask.included@[i as int].deep_view());
        let t = &ask.included[i];
        if t.from < 0 || t.messages.len() as u64 > (i64::MAX - t.from) as u64 || known_revision(
            &t.existing,
        ) == i64::MAX {
            assert(!target_fits(targets[i as int]));
            return false;
        }
        i = i + 1;
    }
    let mut j: usize = 0;
    while j < ask.read_only.len()
        invariant
            j <= ask.read_only@.len(),
            readers == ask.read_only.deep_view(),
            forall|k: int| 0 <= k < j ==> reader_fits(#[trigger] readers[k]),
        decreases ask.read_only@.len() - j,
    {
        assert(readers[j as int] == ask.read_only@[j as int].deep_view());
        if known_revision(&ask.read_only[j].context) == i64::MAX {
            assert(!reader_fits(readers[j as int]));
            return false;
        }
        j = j + 1;
    }
    assert(targets.len() == ask.included@.len() && readers.len() == ask.read_only@.len());
    true
}

fn worded(before: &str, id: &str, after: &str) -> (r: String)
    ensures
        r@ == before@ + id@ + after@,
{
    let mut s: String = before.to_owned();
    s.append(id);
    s.append(after);
    s
}

fn ids_of(messages: &Vec<SessionMessage>) -> (r: Vec<String>)
    ensures
        texts(r@) == message_ids(messages@),
{
    let mut out: Vec<String> = Vec::new();
    let mut i: usize = 0;
    assert(texts(out@) =~= message_ids(messages@.take(0)));
    while i < messages.len()
        invariant
            i <= messages@.len(),
            texts(out@) == message_ids(messages@.take(i as int)),
        decreases messages@.len() - i,
    {
        let ghost before = texts(out@);
        out.push(messages[i].id.clone());
        assert(texts(out@) =~= before.push(messages@[i as int].id@));
        i = i + 1;
        assert(message_ids(messages@.take(i as int)) =~= message_ids(messages@.take(i - 1)).push(
            messages@[i - 1].id@,
        ));
    }
    assert(messages@.take(i as int) =~= messages@);
    out
}

fn check_target(store: &Store, t: &TargetSession) -> (r: Option<String>)
    requires
        target_fits(t.deep_view()),
    ensures
        r.deep_view() == target_fault(*store, t.deep_view()),
{
    let id: &str = t.session.id.as_str();
    let cur_rev: i64 = match store.get_session_context(id) {
        Some(c) => c.revision,
        None => 0,
    };
    if cur_rev != known_revision(&t.existing) {
        return Some(worded("会话 ", id, " 的摘要已变化，请重新更新"));
    }
    if store.get_session_ingest_state(id).generation != t.generation {
        return Some(worded("会话 ", id, " 的对话已改写，请重新更新"));
    }
    let ids = store.projection_ids(id);
    assert(texts(ids@).len() == ids@.len());
    let upper: i64 = t.from + t.messages.len() as i64;
    if (ids.len() as u64) < upper as u64 {
        return Some("会话内容已变化，请重新更新".to_owned());
    }
    let wanted = ids_of(&t.messages);
    if !is_still_there(&ids, t.from, &wanted) {
        return Some("会话内容已变化，请重新更新".to_owned());
    }
    None
}

fn check_reader(store: &Store, x: &ReadOnlySession) -> (r: Option<String>)
    ensures
        r.deep_view() == reader_fault(*store, x.deep_view()),
{
    let id: &str = x.session_id.as_str();
    let cur_rev: i64 = match store.get_session_context(id) {
        Some(c) => c.revision,
        None => 0,
    };
    let ingest = store.get_session_ingest_state(id);
    if cur_rev != known_revision(&x.context) || ingest.generation != x.generation
        || ingest.latest_message_seq != x.latest_message_seq {
        return Some(worded("会话 ", id, " 的摘要或对话已变化，请重新更新"));
    }
    None
}

/// Checks that nothing an answer rests on has changed.
pub fn check_workstream_commit(
    store: &Store,
    workstream_id: &str,
    snapshot: &WorkstreamContextState,
    included: &Vec<TargetSession>,
    read_only: &Vec<ReadOnlySession>,
) -> (r: Result<(), AppError>)
    requires
        counters_fit(snapshot.deep_view(), included.deep_view(), read_only.deep_view()),
    ensures
        match commit_fault(
            *store,
            workstream_id@,
            snapshot.deep_view(),
            included.deep_view(),
            read_only.deep_view(),
        ) {
            Some(f) => r matches Err(e) && e.deep_view() == Fault::Context(
                ContextFault::ConcurrencyConflict(f),
            ),
            None => r is Ok,
        },
{
    let cur = store.get_workstream_context_state(workstream_id);
    if cur.context_revision != snapshot.context_revision || cur.input_revision
        != snapshot.input_revision {
        return Err(conflict("Workstream 状态已变化，请重新更新"));
    }
    let ghost targets = included.deep_view();
    let ghost readers = read_only.deep_view();
    let mut i: usize = 0;
    assert(targets.take(0) =~= Seq::<Target>::empty());
    while i < included.len()
        invariant
            i <= included@.len(),
            targets == included.deep_view(),
            forall|k: int| 0 <= k < targets.len() ==> target_fits(#[trigger] targets[k]),
            targets_fault(*store, targets.take(i as int)) is None,
            store.revisions(workstream_id@).context == snapshot.deep_view().context,
            store.revisions(workstream_id@).input == snapshot.deep_view().input,
        decreases included@.len() - i,
    {
        assert(targets.take(i + 1).drop_last() =~= targets.take(i as int));
        assert(targets.take(i + 1).last() == included@[i as int].deep_view());
        assert(target_fits(targets[i as int]));
        match check_target(store, &included[i]) {
            Some(f) => {
                proof {
                    a_fault_stays(*store, targets, i + 1);
                }
                return Err(conflict(f.as_str()));
            },
            None => {},
        }
        i = i + 1;
    }
    assert(targets.take(i as int) =~= targets);
    let mut j: usize = 0;
    assert(readers.take(0) =~= Seq::<Reader>::empty());
    while j < read_only.len()
        invariant
            j <= read_only@.len(),
            readers == read_only.deep_view(),
            readers_fault(*store, readers.take(j as int)) is None,
            targets == included.deep_view(),
            targets_fault(*store, targets) is None,
            store.revisions(workstream_id@).context == snapshot.deep_view().context,
            store.revisions(workstream_id@).input == snapshot.deep_view().input,
        decreases read_only@.len() - j,
    {
        assert(readers.take(j + 1).drop_last() =~= readers.take(j as int));
        assert(readers.take(j + 1).last() == read_only@[j as int].deep_view());
        match check_reader(store, &read_only[j]) {
            Some(f) => {
                proof {
                    a_reader_fault_stays(*store, readers, j + 1);
                }
                return Err(conflict(f.as_str()));
            },
            None => {},
        }
        j = j + 1;
    }
    assert(readers.take(j as int) =~= readers);
    Ok(())
}

proof fn a_fault_stays(store: Store, targets: Seq<Target>, n: int)
    requires
        0 <= n <= targets.len(),
        targets_fault(store, targets.take(n)) is Some,
    ensures
        targets_fault(store, targets) == targets_fault(store, targets.take(n)),
    decreases targets.len() - n,
{
    if n == targets.len() {
        assert(targets.take(n) =~= targets);
    } else {
        assert(targets.take(n + 1).drop_last() =~= targets.take(n));
        a_fault_stays(store, targets, n + 1);
    }
}

proof fn a_reader_fault_stays(store: Store, readers: Seq<Reader>, n: int)
    requires
        0 <= n <= readers.len(),
        readers_fault(store, readers.take(n)) is Some,
    ensures
        readers_fault(store, readers) == readers_fault(store, readers.take(n)),
    decreases readers.len() - n,
{
    if n == readers.len() {
        assert(readers.take(n) =~= readers);
    } else {
        assert(readers.take(n + 1).drop_last() =~= readers.take(n));
        a_reader_fault_stays(store, readers, n + 1);
    }
}

// ---------------------------------------------------------------------------
// Writing
// ---------------------------------------------------------------------------

/// The summary that was written of a session; the last one counts.
pub open spec fn draft_for(drafts: Seq<Draft>, session: Seq<char>) -> Option<Fields>
    decreases drafts.len(),
{
    if drafts.len() == 0 {
        None
    } else if drafts.last().session_id == session {
        Some(drafts.last().fields)
    } else {
        draft_for(drafts.drop_last(), session)
    }
}

/// What an update writes: summaries, frontiers, and the sessions whose summary is new.
pub struct Written {
    pub summaries: Map<Seq<char>, ContextRow>,
    pub taken: Map<(Seq<char>, Seq<char>), Taken>,
    pub updated: Seq<Seq<char>>,
}

/// One target is written, where there is a summary of it.
pub open spec fn write_target(
    w: Written,
    workstream: Seq<char>,
    t: Target,
    drafts: Seq<Draft>,
    now: Seq<char>,
) -> Written {
    let id = t.session.id@;
    let revision = (revision_of(t.existing) + 1) as i64;
    let upper = (t.from + t.messages.len()) as i64;
    match draft_for(drafts, id) {
        None => w,
        Some(fields) => Written {
            summaries: w.summaries.insert(
                id,
                ContextRow {
                    session_id: id,
                    fields,
                    revision,
                    ingest_generation: t.generation,
                    processed_through_seq: upper,
                    updated_at: now,
                },
            ),
            taken: w.taken.insert(
                (workstream, id),
                Taken {
                    session_context_revision: revision,
                    ingest_generation: t.generation,
                    consumed_through_seq: upper,
                },
            ),
            updated: w.updated.push(id),
        },
    }
}

/// All targets are written.
pub open spec fn write_targets(
    w: Written,
    workstream: Seq<char>,
    targets: Seq<Target>,
    drafts: Seq<Draft>,
    now: Seq<char>,
) -> Written
    decreases targets.len(),
{
    if targets.len() == 0 {
        w
    } else {
        write_target(
            write_targets(w, workstream, targets.drop_last(), drafts, now),
            workstream,
            targets.last(),
            drafts,
            now,
        )
    }
}

/// The revision of a summary after a session that only showed it was taken in.
pub open spec fn revision_after(r: Reader) -> i64 {
    if r.invalidate_context && r.context is Some {
        (revision_of(r.context) + 1) as i64
    } else if r.invalidate_context {
        0
    } else {
        revision_of(r.context)
    }
}

/// One session that only showed its summary is written: a summary of a conversation that is gone
/// is cleared.
pub open spec fn write_reader(
    w: Written,
    workstream: Seq<char>,
    r: Reader,
    now: Seq<char>,
) -> Written {
    Written {
        summaries: if r.invalidate_context && r.context is Some {
            w.summaries.insert(
                r.session_id,
                ContextRow {
                    session_id: r.session_id,
                    fields: Fields::blank(),
                    revision: revision_after(r),
                    ingest_generation: r.generation,
                    processed_through_seq: 0,
                    updated_at: now,
                },
            )
        } else {
            w.summaries
        },
        taken: w.taken.insert(
            (workstream, r.session_id),
            Taken {
                session_context_revision: revision_after(r),
                ingest_generation: r.generation,
                consumed_through_seq: r.latest_message_seq,
            },
        ),
        updated: w.updated,
    }
}

/// All sessions that only showed their summary are written.
pub open spec fn write_readers(
    w: Written,
    workstream: Seq<char>,
    readers: Seq<Reader>,
    now: Seq<char>,
) -> Written
    decreases readers.len(),
{
    if readers.len() == 0 {
        w
    } else {
        write_reader(
            write_readers(w, workstream, readers.drop_last(), now),
            workstream,
            readers.last(),
            now,
        )
    }
}

/// Everything an update of a workstream writes: the targets, then the frontiers of sessions that
/// are not its own go, then the sessions that only showed their summary.
pub open spec fn written(
    store: Store,
    workstream: Seq<char>,
    targets: Seq<Target>,
    readers: Seq<Reader>,
    drafts: Seq<Draft>,
    now: Seq<char>,
) -> Written {
    let start = Written {
        summaries: store.summaries(),
        taken: store.taken_in(),
        updated: Seq::empty(),
    };
    let w = write_targets(start, workstream, targets, drafts, now);
    write_readers(
        Written {
            taken: w.taken.remove_keys(unowned(store.sessions@, workstream)),
            ..w
        },
        workstream,
        readers,
        now,
    )
}

/// How many changes took effect.
pub open spec fn effective(merged: Seq<bool>) -> nat
    decreases merged.len(),
{
    if merged.len() == 0 {
        0
    } else if merged.last() {
        effective(merged.drop_last()) + 1
    } else {
        effective(merged.drop_last())
    }
}

fn find_draft<'a>(drafts: &'a Vec<SessionContextDraft>, session_id: &str) -> (r: Option<
    &'a SessionContextFields,
>)
    ensures
        match r {
            Some(f) => draft_for(drafts.deep_view(), session_id@) == Some(f.deep_view()),
            None => draft_for(drafts.deep_view(), session_id@) is None,
        },
{
    let ghost all = drafts.deep_view();
    let mut i: usize = drafts.len();
    assert(all.take(i as int) =~= all);
    while i > 0
        invariant
            i <= drafts@.len(),
            all == drafts.deep_view(),
            draft_for(all, session_id@) == draft_for(all.take(i as int), session_id@),
        decreases i,
    {
        assert(all.take(i as int).drop_last() =~= all.take(i - 1));
        assert(all.take(i as int).last() == drafts@[i - 1].deep_view());
        i = i - 1;
        if same(drafts[i].session_id.as_str(), session_id) {
            return Some(&drafts[i].fields);
        }
    }
    None
}

fn count_effective(merged: &Vec<bool>) -> (r: usize)
    ensures
        r == effective(merged@),
{
    let mut n: usize = 0;
    let mut i: usize = 0;
    assert(merged@.take(0) =~= Seq::<bool>::empty());
    while i < merged.len()
        invariant
            i <= merged@.len(),
            n <= i,
            n == effective(merged@.take(i as int)),
        decreases merged@.len() - i,
    {
        assert(merged@.take(i + 1).drop_last() =~= merged@.take(i as int));
        assert(merged@.take(i + 1).last() == merged@[i as int]);
        if merged[i] {
            n = n + 1;
        }
        i = i + 1;
    }
    assert(merged@.take(i as int) =~= merged@);
    n
}

/// What a commit did.
pub struct CommitOutcome {
    pub context_revision: i64,
    pub updated_sessions: Vec<String>,
    pub mutations_applied: usize,
}

/// The store holds what was written, and nothing else of it changed but the revisions.
pub open spec fn holds(before: Store, after: Store, w: Written) -> bool {
    &&& after.summaries() == w.summaries
    &&& after.taken_in() == w.taken
    &&& after == Store {
        contexts: after.contexts,
        frontiers: after.frontiers,
        states: after.states,
        ..before
    }
}

fn store_targets(
    store: &mut Store,
    workstream_id: &str,
    included: &Vec<TargetSession>,
    drafts: &Vec<SessionContextDraft>,
    now: &str,
) -> (r: Vec<String>)
    requires
        forall|i: int|
            0 <= i < included.deep_view().len() ==> target_fits(#[trigger] included.deep_view()[i]),
    ensures
        ({
            let w = write_targets(
                Written {
                    summaries: old(store).summaries(),
                    taken: old(store).taken_in(),
                    updated: Seq::empty(),
                },
                workstream_id@,
                included.deep_view(),
                drafts.deep_view(),
                now@,
            );
            &&& final(store).summaries() == w.summaries
            &&& final(store).taken_in() == w.taken
            &&& texts(r@) == w.updated
            &&& *final(store) == Store {
                contexts: final(store).contexts,
                frontiers: final(store).frontiers,
                ..*old(store)
            }
        }),
{
    let ghost targets = included.deep_view();
    let ghost all = drafts.deep_view();
    let ghost start = Written {
        summaries: store.summaries(),
        taken: store.taken_in(),
        updated: Seq::empty(),
    };
    let mut updated: Vec<String> = Vec::new();
    let mut i: usize = 0;
    assert(targets.take(0) =~= Seq::<Target>::empty());
    assert(texts(updated@) =~= Seq::<Seq<char>>::empty());
    while i < included.len()
        invariant
            i <= included@.len(),
            targets == included.deep_view(),
            all == drafts.deep_view(),
            forall|k: int| 0 <= k < targets.len() ==> target_fits(#[trigger] targets[k]),
            ({
                let w = write_targets(start, workstream_id@, targets.take(i as int), all, now@);
                &&& store.summaries() == w.summaries
                &&& store.taken_in() == w.taken
                &&& texts(updated@) == w.updated
            }),
            *store == (Store {
                contexts: store.contexts,
                frontiers: store.frontiers,
                ..*old(store)
            }),
        decreases included@.len() - i,
    {
        assert(targets.take(i + 1).drop_last() =~= targets.take(i as int));
        assert(targets.take(i + 1).last() == included@[i as int].deep_view());
        assert(target_fits(targets[i as int]));
        let t = &included[i];
        let id: &str = t.session.id.as_str();
        match find_draft(drafts, id) {
            None => {},
            Some(fields) => {
                let upper: i64 = t.from + t.messages.len() as i64;
                let rev = store.commit_session_context(
                    id,
                    fields,
                    known_revision(&t.existing),
                    t.generation,
                    upper,
                    now,
                );
                store.set_workstream_frontier(
                    WorkstreamSessionFrontier {
                        workstream_id: workstream_id.to_owned(),
                        session_id: t.session.id.clone(),
                        session_context_revision: rev,
                        ingest_generation: t.generation,
                        consumed_through_seq: upper,
                    },
                );
                let ghost before = texts(updated@);
                updated.push(t.session.id.clone());
                assert(texts(updated@) =~= before.push(t.session.id@));
            },
        }
        i = i + 1;
    }
    assert(targets.take(i as int) =~= targets);
    updated
}

fn store_readers(
    store: &mut Store,
    workstream_id: &str,
    read_only: &Vec<ReadOnlySession>,
    now: &str,
)
    requires
        forall|i: int|
            0 <= i < read_only.deep_view().len() ==> reader_fits(
                #[trigger] read_only.deep_view()[i],
            ),
    ensures
        forall|updated: Seq<Seq<char>>|
            ({
                let w = #[trigger] write_readers(
                    Written {
                        summaries: old(store).summaries(),
                        taken: old(store).taken_in(),
                        updated,
                    },
                    workstream_id@,
                    read_only.deep_view(),
                    now@,
                );
                &&& final(store).summaries() == w.summaries
                &&& final(store).taken_in() == w.taken
                &&& updated == w.updated
            }),
        *final(store) == (Store {
            contexts: final(store).contexts,
            frontiers: final(store).frontiers,
            ..*old(store)
        }),
{
    let ghost readers = read_only.deep_view();
    let ghost summaries = store.summaries();
    let ghost taken = store.taken_in();
    let mut i: usize = 0;
    assert(readers.take(0) =~= Seq::<Reader>::empty());
    while i < read_only.len()
        invariant
            i <= read_only@.len(),
            readers == read_only.deep_view(),
            forall|k: int| 0 <= k < readers.len() ==> reader_fits(#[trigger] readers[k]),
            forall|updated: Seq<Seq<char>>|
                ({
                    let w = #[trigger] write_readers(
                        Written { summaries, taken, updated },
                        workstream_id@,
                        readers.take(i as int),
                        now@,
                    );
                    &&& store.summaries() == w.summaries
                    &&& store.taken_in() == w.taken
                    &&& updated == w.updated
                }),
            *store == (Store {
                contexts: store.contexts,
                frontiers: store.frontiers,
                ..*old(store)
            }),
        decreases read_only@.len() - i,
    {
        assert(readers.take(i + 1).drop_last() =~= readers.take(i as int));
        assert(readers.take(i + 1).last() == read_only@[i as int].deep_view());
        assert(reader_fits(readers[i as int]));
        let r = &read_only[i];
        let ghost view = r.deep_view();
        let revision: i64 = if r.invalidate_context {
            match &r.context {
                Some(c) => store.commit_session_context(
                    r.session_id.as_str(),
                    &SessionContextFields::default(),
                    c.revision,
                    r.generation,
                    0,
                    now,
                ),
                None => 0,
            }
        } else {
            known_revision(&r.context)
        };
        store.set_workstream_frontier(
            WorkstreamSessionFrontier {
                workstream_id: workstream_id.to_owned(),
                session_id: r.session_id.clone(),
                session_context_revision: revision,
                ingest_generation: r.generation,
                consumed_through_seq: r.latest_message_seq,
            },
        );
        assert forall|updated: Seq<Seq<char>>|
            ({
                let w = #[trigger] write_readers(
                    Written { summaries, taken, updated },
                    workstream_id@,
                    readers.take(i + 1),
                    now@,
                );
                &&& store.summaries() == w.summaries
                &&& store.taken_in() == w.taken
                &&& updated == w.updated
            }) by {
            let before = write_readers(
                Written { summaries, taken, updated },
                workstream_id@,
                readers.take(i as int),
                now@,
            );
            assert(before.updated == updated);
        }
        i = i + 1;
    }
    assert(readers.take(i as int) =~= readers);
}

/// Writes everything that follows from an answer, together, provided that nothing it rests on has
/// changed; else nothing is written. `output` is what was read from the answer, `merged` says of
/// each change that it proposes whether it took effect.
pub fn commit_workstream_update(
    store: &mut Store,
    workstream_id: &str,
    snapshot: &WorkstreamContextState,
    included: &Vec<TargetSession>,
    read_only: &Vec<ReadOnlySession>,
    output: &ContextUpdateOutput,
    merged: &Vec<bool>,
    now: &str,
) -> (r: Result<CommitOutcome, AppError>)
    requires
        counters_fit(snapshot.deep_view(), included.deep_view(), read_only.deep_view()),
        merged@.len() == output.workstream_mutations@.len(),
    ensures
        match commit_fault(
            *old(store),
            workstream_id@,
            snapshot.deep_view(),
            included.deep_view(),
            read_only.deep_view(),
        ) {
            Some(f) => {
                &&& r is Err
                &&& r->Err_0.deep_view() == Fault::Context(ContextFault::ConcurrencyConflict(f))
                &&& *final(store) == *old(store)
            },
            None => {
                let w = written(
                    *old(store),
                    workstream_id@,
                    included.deep_view(),
                    read_only.deep_view(),
                    output.session_contexts.deep_view(),
                    now@,
                );
                &&& r is Ok
                &&& holds(*old(store), *final(store), w)
                &&& r->Ok_0.context_revision == old(store).revisions(workstream_id@).context + 1
                &&& texts(r->Ok_0.updated_sessions@) == w.updated
                &&& r->Ok_0.mutations_applied == effective(merged@)
                &&& forall|x: Seq<char>|
                    #![trigger final(store).revisions(x)]
                    final(store).revisions(x) == if x == workstream_id@ {
                        Revisions {
                            context: (old(store).revisions(x).context + 1) as i64,
                            input: old(store).revisions(x).input,
                            consumed_input: old(store).revisions(x).input,
                        }
                    } else {
                        old(store).revisions(x)
                    }
            },
        },
{
    match check_workstream_commit(store, workstream_id, snapshot, included, read_only) {
        Err(e) => {
            return Err(e);
        },
        Ok(()) => {},
    }
    let mutations_applied = count_effective(merged);
    let drafts = &output.session_contexts;
    let updated_sessions = store_targets(store, workstream_id, included, drafts, now);
    store.delete_unowned_workstream_frontiers(workstream_id);
    store_readers(store, workstream_id, read_only, now);
    let ghost w = written(
        *old(store),
        workstream_id@,
        included.deep_view(),
        read_only.deep_view(),
        output.session_contexts.deep_view(),
        now@,
    );
    assert(store.summaries() == w.summaries && store.taken_in() == w.taken);
    assert(texts(updated_sessions@) == w.updated);
    let context_revision = store.advance_workstream(workstream_id);
    Ok(CommitOutcome { context_revision, updated_sessions, mutations_applied })
}

// ---------------------------------------------------------------------------
// Deciding
// ---------------------------------------------------------------------------

/// An item as a prompt lists it.
pub open spec fn item_line(row: ItemRow) -> Seq<char> {
    "- item_id="@ + row.item.id@ + " | "@ + row.item.kind@ + " | "@ + row.revision.title@
}

/// Items as a prompt lists them.
pub open spec fn item_lines(rows: Seq<ItemRow>) -> Seq<Seq<char>> {
    rows.map_values(|r: ItemRow| item_line(r))
}

/// The ids of items.
pub open spec fn item_ids(rows: Seq<ItemRow>) -> Seq<Seq<char>> {
    rows.map_values(|r: ItemRow| r.item.id@)
}

/// The ids of targets.
pub open spec fn target_ids(targets: Seq<Target>) -> Seq<Seq<char>> {
    targets.map_values(|t: Target| t.session.id@)
}

fn list_items(rows: &Vec<&ItemRow>) -> (r: (Vec<String>, Vec<String>))
    ensures
        texts(r.0@) == item_lines(rows@.map_values(|x: &ItemRow| *x)),
        texts(r.1@) == item_ids(rows@.map_values(|x: &ItemRow| *x)),
{
    let ghost all = rows@.map_values(|x: &ItemRow| *x);
    let mut lines: Vec<String> = Vec::new();
    let mut ids: Vec<String> = Vec::new();
    let mut i: usize = 0;
    assert(texts(lines@) =~= item_lines(all.take(0)));
    assert(texts(ids@) =~= item_ids(all.take(0)));
    while i < rows.len()
        invariant
            i <= rows@.len(),
            all == rows@.map_values(|x: &ItemRow| *x),
            texts(lines@) == item_lines(all.take(i as int)),
            texts(ids@) == item_ids(all.take(i as int)),
        decreases rows@.len() - i,
    {
        let ghost row = *rows@[i as int];
        assert(all[i as int] == row);
        let mut line: String = "- item_id=".to_owned();
        line.append(rows[i].item.id.as_str());
        line.append(" | ");
        line.append(rows[i].item.kind.as_str());
        line.append(" | ");
        line.append(rows[i].revision.title.as_str());
        let ghost before_lines = texts(lines@);
        let ghost before_ids = texts(ids@);
        lines.push(line);
        ids.push(rows[i].item.id.clone());
        assert(texts(lines@) =~= before_lines.push(item_line(row)));
        assert(texts(ids@) =~= before_ids.push(row.item.id@));
        i = i + 1;
        assert(item_lines(all.take(i as int)) =~= item_lines(all.take(i - 1)).push(
            item_line(row),
        ));
        assert(item_ids(all.take(i as int)) =~= item_ids(all.take(i - 1)).push(row.item.id@));
    }
    assert(all.take(i as int) =~= all);
    (lines, ids)
}

fn ids_of_targets(targets: &Vec<TargetSession>) -> (r: Vec<String>)
    ensures
        texts(r@) == target_ids(targets.deep_view()),
{
    let ghost all = targets.deep_view();
    let mut out: Vec<String> = Vec::new();
    let mut i: usize = 0;
    assert(texts(out@) =~= target_ids(all.take(0)));
    while i < targets.len()
        invariant
            i <= targets@.len(),
            all == targets.deep_view(),
            texts(out@) == target_ids(all.take(i as int)),
        decreases targets@.len() - i,
    {
        assert(all[i as int] == targets@[i as int].deep_view());
        let ghost before = texts(out@);
        out.push(targets[i].session.id.clone());
        assert(texts(out@) =~= before.push(all[i as int].session.id@));
        i = i + 1;
        assert(target_ids(all.take(i as int)) =~= target_ids(all.take(i - 1)).push(
            all[i - 1].session.id@,
        ));
    }
    assert(all.take(i as int) =~= all);
    out
}

/// The question rests on the rows as they are, and asks about as many targets as fit.
pub open spec fn asks<F: Fn(&PromptInput) -> Prompt>(
    ask: WorkstreamAsk,
    store: Store,
    workstream: Seq<char>,
    title: Seq<char>,
    description: Seq<char>,
    launch: ContextLaunchConfig,
    render: F,
    limits: InputLimits,
) -> bool {
    let targets = targets_of(store, workstream);
    let readers = readers_of(store, workstream);
    let items = items_of(store.items@, workstream);
    let n = ask.included.deep_view().len() as int;
    &&& launch.agent == Some(ask.cli.agent)
    &&& launch.opts == Some(ask.cli.opts)
    &&& ask.workstream_id@ == workstream
    &&& n <= targets.len()
    &&& targets.len() > 0 ==> n > 0
    &&& ask.included.deep_view() == targets.take(n)
    &&& ask.read_only.deep_view() == readers
    &&& ask.target_count == targets.len()
    &&& ask.snapshot.deep_view() == store.revisions(workstream)
    &&& texts(ask.expected_targets@) == target_ids(targets.take(n))
    &&& texts(ask.allowed_items@) == item_ids(items)
    &&& renders(
        render,
        workstream_input(title, description, item_lines(items), targets.take(n), readers),
        ask.prompt,
    )
    &&& byte_len(ask.prompt.text@) <= workstream_room(limits, n as nat)
    &&& forall|k: int|
        1 <= k <= n ==> #[trigger] seen_to_fit(
            store,
            workstream,
            title,
            description,
            render,
            limits,
            k,
        )
    &&& n < targets.len() ==> seen_too_large(
        store,
        workstream,
        title,
        description,
        render,
        limits,
        n + 1,
    )
}

/// A prompt about the first targets was seen to be too large.
pub open spec fn seen_too_large<F: Fn(&PromptInput) -> Prompt>(
    store: Store,
    workstream: Seq<char>,
    title: Seq<char>,
    description: Seq<char>,
    render: F,
    limits: InputLimits,
    n: int,
) -> bool {
    exists|p: Prompt|
        #[trigger] renders(
            render,
            workstream_input(
                title,
                description,
                item_lines(items_of(store.items@, workstream)),
                targets_of(store, workstream).take(n),
                readers_of(store, workstream),
            ),
            p,
        ) && byte_len(p.text@) > workstream_room(limits, n as nat)
}

/// A prompt about the first targets was seen to fit.
pub open spec fn seen_to_fit<F: Fn(&PromptInput) -> Prompt>(
    store: Store,
    workstream: Seq<char>,
    title: Seq<char>,
    description: Seq<char>,
    render: F,
    limits: InputLimits,
    n: int,
) -> bool {
    exists|p: Prompt|
        #[trigger] renders(
            render,
            workstream_input(
                title,
                description,
                item_lines(items_of(store.items@, workstream)),
                targets_of(store, workstream).take(n),
                readers_of(store, workstream),
            ),
            p,
        ) && byte_len(p.text@) <= workstream_room(limits, n as nat)
}

proof fn large_stays_large<F: Fn(&PromptInput) -> Prompt>(
    render: F,
    request: WorkstreamRequest,
    store: Store,
    workstream: Seq<char>,
    limits: InputLimits,
    n: int,
)
    requires
        too_much(
            render,
            request,
            targets_of(store, workstream),
            readers_of(store, workstream),
            n,
            limits,
        ),
        texts(request.item_lines@) == item_lines(items_of(store.items@, workstream)),
    ensures
        seen_too_large(
            store,
            workstream,
            request.title@,
            request.description@,
            render,
            limits,
            n,
        ),
{
    let p = choose|p: Prompt|
        #[trigger] renders(
            render,
            request.about(targets_of(store, workstream).take(n), readers_of(store, workstream)),
            p,
        ) && byte_len(p.text@) > workstream_room(limits, n as nat);
    assert(renders(
        render,
        workstream_input(
            request.title@,
            request.description@,
            item_lines(items_of(store.items@, workstream)),
            targets_of(store, workstream).take(n),
            readers_of(store, workstream),
        ),
        p,
    ));
}

proof fn small_stays_small<F: Fn(&PromptInput) -> Prompt>(
    render: F,
    request: WorkstreamRequest,
    store: Store,
    workstream: Seq<char>,
    limits: InputLimits,
    n: int,
)
    requires
        little_enough(
            render,
            request,
            targets_of(store, workstream),
            readers_of(store, workstream),
            n,
            limits,
        ),
        texts(request.item_lines@) == item_lines(items_of(store.items@, workstream)),
    ensures
        seen_to_fit(
            store,
            workstream,
            request.title@,
            request.description@,
            render,
            limits,
            n,
        ),
{
    let p = choose|p: Prompt|
        #[trigger] renders(
            render,
            request.about(targets_of(store, workstream).take(n), readers_of(store, workstream)),
            p,
        ) && byte_len(p.text@) <= workstream_room(limits, n as nat);
    assert(renders(
        render,
        workstream_input(
            request.title@,
            request.description@,
            item_lines(items_of(store.items@, workstream)),
            targets_of(store, workstream).take(n),
            readers_of(store, workstream),
        ),
        p,
    ));
}

/// Decides what an update of a workstream does. No model is asked where there is nothing new.
/// `render` makes a prompt of its parts.
pub fn update_workstream<F: Fn(&PromptInput) -> Prompt>(
    store: &Store,
    workstream_id: &str,
    launch: &ContextLaunchConfig,
    operation: &mut ContextOperation,
    render: &F,
    limits: &InputLimits,
) -> (r: Result<WorkstreamStep, AppError>)
    requires
        forall|i: PromptInput| #[trigger] call_requires(*render, (&i,)),
    ensures
        ({
            let targets = targets_of(*store, workstream_id@);
            let readers = readers_of(*store, workstream_id@);
            let state = store.revisions(workstream_id@);
            let c = ContextOperation {
                agent: final(operation).agent,
                model_override: final(operation).model_override,
                ..*old(operation)
            };
            &&& configured(*old(operation), *launch, c)
            &&& if old(operation).home is None {
                &&& r is Err
                &&& r->Err_0.deep_view() == Fault::Other("context home unavailable"@)
                &&& noted(
                    c,
                    *final(operation),
                    "home_resolution"@,
                    "home_unavailable"@,
                    "NoEnding Home 未初始化，无法安全运行 Context Agent。"@,
                )
            } else {
                match workstream_in(store.workstreams@, workstream_id@) {
                    None => {
                        &&& r is Err
                        &&& r->Err_0.deep_view() == Fault::Other("Workstream 不存在"@)
                        &&& noted(
                            c,
                            *final(operation),
                            "snapshot"@,
                            "workstream_missing"@,
                            "找不到要更新的 Workstream。"@,
                        )
                    },
                    Some(w) => if w.visibility@ == "archived"@ {
                        &&& r is Err
                        &&& r->Err_0.deep_view() == Fault::Other(
                            "已归档的 Workstream 只读，恢复后才能更新状态"@,
                        )
                        &&& noted(
                            c,
                            *final(operation),
                            "snapshot"@,
                            "workstream_archived"@,
                            "已归档的 Workstream 只读，请先恢复后再更新状态。"@,
                        )
                    } else if targets.len() == 0 && readers.len() == 0 && state.input
                        <= state.consumed_input {
                        &&& r matches Ok(WorkstreamStep::Done(o))
                        &&& r->Ok_0->Done_0.workstream_id@ == workstream_id@
                        &&& r->Ok_0->Done_0.status == ContextUpdateStatus::NoChange
                        &&& r->Ok_0->Done_0.context_revision == state.context
                        &&& r->Ok_0->Done_0.updated_sessions@.len() == 0
                        &&& r->Ok_0->Done_0.mutations_applied == 0
                        &&& r->Ok_0->Done_0.remaining_pending == 0
                        &&& *final(operation) == c
                    } else {
                        match launch_fault(*launch) {
                            Some((code, message, text)) => {
                                &&& r is Err
                                &&& r->Err_0.deep_view() == Fault::Context(
                                    ContextFault::AiUnavailable(text),
                                )
                                &&& noted(
                                    c,
                                    *final(operation),
                                    "runtime_configuration"@,
                                    code,
                                    message,
                                )
                            },
                            None => {
                                &&& moved(c, *final(operation), "input_preparation"@)
                                &&& match r {
                                    Ok(WorkstreamStep::Ask(ask)) => asks(
                                        ask,
                                        *store,
                                        workstream_id@,
                                        w.title@,
                                        w.description@,
                                        *launch,
                                        *render,
                                        *limits,
                                    ),
                                    Ok(WorkstreamStep::Done(_)) => false,
                                    Err(e) => if targets.len() == 0 {
                                        &&& e.deep_view() == Fault::Context(
                                            ContextFault::InputTooLarge(
                                                "Workstream 与只读输入的组合已超出预算"@,
                                            ),
                                        )
                                        &&& seen_too_large(
                                            *store,
                                            workstream_id@,
                                            w.title@,
                                            w.description@,
                                            *render,
                                            *limits,
                                            0,
                                        )
                                    } else {
                                        &&& e.deep_view() == Fault::Context(
                                            ContextFault::InputTooLarge(
                                                "第一个目标会话已超出输入预算"@,
                                            ),
                                        )
                                        &&& seen_too_large(
                                            *store,
                                            workstream_id@,
                                            w.title@,
                                            w.description@,
                                            *render,
                                            *limits,
                                            1,
                                        )
                                    },
                                }
                            },
                        }
                    },
                }
            }
        }),
{
    match begin_update(launch, operation) {
        Err(e) => {
            return Err(e);
        },
        Ok(()) => {},
    }
    let ws = match store.get_workstream(workstream_id) {
        Some(w) => w,
        None => {
            operation.fail_with(
                "snapshot",
                "workstream_missing",
                "找不到要更新的 Workstream。",
            );
            return Err(other("Workstream 不存在"));
        },
    };
    if same(ws.visibility.as_str(), "archived") {
        operation.fail_with(
            "snapshot",
            "workstream_archived",
            "已归档的 Workstream 只读，请先恢复后再更新状态。",
        );
        return Err(other("已归档的 Workstream 只读，恢复后才能更新状态"));
    }
    let state = store.get_workstream_context_state(workstream_id);
    let rows = store.items_for_workstream(workstream_id);
    let (lines, allowed_items) = list_items(&rows);
    let (mut targets, read_only) = affected_sessions(store, workstream_id);
    assert(targets.deep_view().len() == targets@.len());
    assert(read_only.deep_view().len() == read_only@.len());
    if targets.len() == 0 && read_only.len() == 0 && state.input_revision
        <= state.consumed_input_revision {
        return Ok(
            WorkstreamStep::Done(
                WorkstreamUpdateOutcome {
                    workstream_id: workstream_id.to_owned(),
                    status: ContextUpdateStatus::NoChange,
                    context_revision: state.context_revision,
                    updated_sessions: Vec::new(),
                    mutations_applied: 0,
                    remaining_pending: 0,
                },
            ),
        );
    }
    operation.set_stage("runtime_configuration");
    let cli = match require_cli(launch, operation) {
        Ok(cli) => cli,
        Err(e) => {
            return Err(e);
        },
    };
    operation.set_stage("input_preparation");
    let request = WorkstreamRequest {
        title: ws.title.clone(),
        description: ws.description.clone(),
        item_lines: lines,
    };
    let target_count: usize = targets.len();
    let ghost all = targets.deep_view();
    match select_workstream_inputs(render, &request, &targets, &read_only, limits) {
        Err(e) => {
            proof {
                let n: int = if target_count == 0 {
                    0
                } else {
                    1
                };
                large_stays_large(*render, request, *store, workstream_id@, *limits, n);
            }
            Err(e)
        },
        Ok((n, prompt)) => {
            proof {
                if n < target_count {
                    large_stays_large(*render, request, *store, workstream_id@, *limits, n + 1);
                }
                assert forall|k: int| 1 <= k <= n implies #[trigger] seen_to_fit(
                    *store,
                    workstream_id@,
                    request.title@,
                    request.description@,
                    *render,
                    *limits,
                    k,
                ) by {
                    assert(little_enough(
                        *render,
                        request,
                        all,
                        read_only.deep_view(),
                        k,
                        *limits,
                    ));
                    small_stays_small(*render, request, *store, workstream_id@, *limits, k);
                }
            }
            targets.truncate(n);
            assert(targets.deep_view() =~= all.take(n as int));
            let expected_targets = ids_of_targets(&targets);
            Ok(
                WorkstreamStep::Ask(
                    WorkstreamAsk {
                        cli,
                        workstream_id: workstream_id.to_owned(),
                        prompt,
                        snapshot: state,
                        included: targets,
                        read_only,
                        expected_targets,
                        allowed_items,
                        target_count,
                    },
                ),
            )
        },
    }
}

// ---------------------------------------------------------------------------
// Finishing
// ---------------------------------------------------------------------------

/// Ends an update of a workstream with the model's answer, which is what could be read from it, or
/// why nothing could. `merged` says of each proposed change whether it took effect. An answer that
/// is of no use, and one that comes too late, change nothing.
pub fn finish_workstream_update(
    store: &mut Store,
    ask: &WorkstreamAsk,
    answer: &Result<ContextUpdateOutput, String>,
    merged: &Vec<bool>,
    operation: &mut ContextOperation,
    now: &str,
) -> (r: Result<WorkstreamUpdateOutcome, AppError>)
    requires
        counters_fit(
            ask.snapshot.deep_view(),
            ask.included.deep_view(),
            ask.read_only.deep_view(),
        ),
        answer matches Ok(output) ==> merged@.len() == output.workstream_mutations@.len(),
    ensures
        match answer {
            Err(why) => {
                &&& r is Err
                &&& r->Err_0.deep_view() == Fault::Context(ContextFault::InvalidOutput(why@))
                &&& *final(store) == *old(store)
                &&& moved(*old(operation), *final(operation), "output_validation"@)
            },
            Ok(output) => {
                let id = ask.workstream_id@;
                &&& moved(*old(operation), *final(operation), "database_commit"@)
                &&& match commit_fault(
                    *old(store),
                    id,
                    ask.snapshot.deep_view(),
                    ask.included.deep_view(),
                    ask.read_only.deep_view(),
                ) {
                    Some(f) => {
                        &&& r is Err
                        &&& r->Err_0.deep_view() == Fault::Context(
                            ContextFault::ConcurrencyConflict(f),
                        )
                        &&& *final(store) == *old(store)
                    },
                    None => {
                        let w = written(
                            *old(store),
                            id,
                            ask.included.deep_view(),
                            ask.read_only.deep_view(),
                            output.session_contexts.deep_view(),
                            now@,
                        );
                        let remaining = if ask.target_count > ask.included@.len() {
                            ask.target_count - ask.included@.len()
                        } else {
                            0
                        };
                        &&& r is Ok
                        &&& holds(*old(store), *final(store), w)
                        &&& r->Ok_0.workstream_id@ == id
                        &&& r->Ok_0.status == (if remaining > 0 {
                            ContextUpdateStatus::Partial
                        } else {
                            ContextUpdateStatus::Updated
                        })
                        &&& r->Ok_0.context_revision == old(store).revisions(id).context + 1
                        &&& texts(r->Ok_0.updated_sessions@) == w.updated
                        &&& r->Ok_0.mutations_applied == effective(merged@)
                        &&& r->Ok_0.remaining_pending == remaining
                        &&& forall|x: Seq<char>|
                            #![trigger final(store).revisions(x)]
                            final(store).revisions(x) == if x == id {
                                Revisions {
                                    context: (old(store).revisions(x).context + 1) as i64,
                                    input: old(store).revisions(x).input,
                                    consumed_input: old(store).revisions(x).input,
                                }
                            } else {
                                old(store).revisions(x)
                            }
                    },
                }
            },
        },
{
    operation.set_stage("output_validation");
    let output = match answer {
        Ok(o) => o,
        Err(why) => {
            return Err(invalid_output(why.as_str()));
        },
    };
    operation.set_stage("database_commit");
    let outcome = match commit_workstream_update(
        store,
        ask.workstream_id.as_str(),
        &ask.snapshot,
        &ask.included,
        &ask.read_only,
        output,
        merged,
        now,
    ) {
        Ok(o) => o,
        Err(e) => {
            return Err(e);
        },
    };
    let remaining_pending: usize = ask.target_count.saturating_sub(ask.included.len());
    Ok(
        WorkstreamUpdateOutcome {
            workstream_id: ask.workstream_id.clone(),
            status: if remaining_pending > 0 {
                ContextUpdateStatus::Partial
            } else {
                ContextUpdateStatus::Updated
            },
            context_revision: outcome.context_revision,
            updated_sessions: outcome.updated_sessions,
            mutations_applied: outcome.mutations_applied,
            remaining_pending,
        },
    )
}

// ---------------------------------------------------------------------------
// What an update rests on
// ---------------------------------------------------------------------------

/// What was seen of the first targets: a prompt of them, larger than there is room for, or not.
pub proof fn what_was_seen_of_the_targets<F: Fn(&PromptInput) -> Prompt>(
    store: Store,
    workstream: Seq<char>,
    title: Seq<char>,
    description: Seq<char>,
    render: F,
    limits: InputLimits,
    n: nat,
)
    ensures
        ({
            let input = workstream_input(
                title,
                description,
                item_lines(items_of(store.items@, workstream)),
                targets_of(store, workstream).take(n as int),
                readers_of(store, workstream),
            );
            let left = limits.input_limit - limits.workstream_reserve - limits.session_reserve * n;
            let room = if left > 0 {
                left
            } else {
                0
            };
            &&& seen_too_large(store, workstream, title, description, render, limits, n as int)
                <==> exists|p: Prompt|
                #[trigger] renders(render, input, p) && byte_len(p.text@) > room
            &&& seen_to_fit(store, workstream, title, description, render, limits, n as int)
                <==> exists|p: Prompt|
                #[trigger] renders(render, input, p) && byte_len(p.text@) <= room
        }),
{
}

/// An item is listed by its id, its kind and its title; the ids that an answer may name are those
/// of the items, and those that it owes a summary are those of the targets.
pub proof fn what_an_answer_may_name(rows: Seq<ItemRow>, targets: Seq<Target>, i: int)
    ensures
        item_lines(rows).len() == rows.len(),
        item_ids(rows).len() == rows.len(),
        target_ids(targets).len() == targets.len(),
        0 <= i < rows.len() ==> item_lines(rows)[i] == "- item_id="@ + rows[i].item.id@ + " | "@
            + rows[i].item.kind@ + " | "@ + rows[i].revision.title@ && item_ids(rows)[i]
            == rows[i].item.id@,
        0 <= i < targets.len() ==> target_ids(targets)[i] == targets[i].session.id@,
{
}

/// The first target that changed is told, and a change of the workstream before any of them; a
/// reader only where every target stands.
pub proof fn the_first_change_is_told(
    store: Store,
    workstream: Seq<char>,
    snapshot: Revisions,
    targets: Seq<Target>,
    t: Target,
    readers: Seq<Reader>,
    r: Reader,
)
    ensures
        store.revisions(workstream).context != snapshot.context || store.revisions(workstream).input
            != snapshot.input ==> commit_fault(store, workstream, snapshot, targets, readers)
            == Some("Workstream 状态已变化，请重新更新"@),
        targets_fault(store, Seq::empty()) is None,
        targets_fault(store, targets) is Some ==> targets_fault(store, targets.push(t))
            == targets_fault(store, targets),
        targets_fault(store, targets) is None ==> targets_fault(store, targets.push(t))
            == target_fault(store, t),
        readers_fault(store, Seq::empty()) is None,
        readers_fault(store, readers) is Some ==> readers_fault(store, readers.push(r))
            == readers_fault(store, readers),
        readers_fault(store, readers) is None ==> readers_fault(store, readers.push(r))
            == reader_fault(store, r),
        store.revisions(workstream).context == snapshot.context && store.revisions(workstream).input
            == snapshot.input ==> {
            &&& targets_fault(store, targets) is Some ==> commit_fault(
                store,
                workstream,
                snapshot,
                targets,
                readers,
            ) == targets_fault(store, targets)
            &&& targets_fault(store, targets) is None ==> commit_fault(
                store,
                workstream,
                snapshot,
                targets,
                readers,
            ) == readers_fault(store, readers)
        },
{
    assert(targets.push(t).drop_last() =~= targets);
    assert(readers.push(r).drop_last() =~= readers);
}

/// A revision of a summary; none has the number zero.
pub open spec fn number_of(context: Option<ContextRow>) -> i64 {
    match context {
        Some(c) => c.revision,
        None => 0,
    }
}

/// What is told of a target and of a reader is what changed: the summary, the conversation, or the
/// messages.
pub proof fn what_is_told_of_a_change(store: Store, t: Target, r: Reader)
    ensures
        ({
            let id = t.session.id@;
            let rewritten = number_of(store.summary(id)) != number_of(t.existing);
            let replaced = store.reading(id).0 != t.generation;
            let ids = message_ids(messages_of(store.messages@, id));
            let there = ids.len() >= t.from + t.messages.len() && still_there(
                ids,
                t.from as int,
                message_ids(t.messages),
            );
            &&& target_fault(store, t) is None <==> !rewritten && !replaced && there
            &&& rewritten ==> target_fault(store, t) == Some(
                "会话 "@ + id + " 的摘要已变化，请重新更新"@,
            )
            &&& !rewritten && replaced ==> target_fault(store, t) == Some(
                "会话 "@ + id + " 的对话已改写，请重新更新"@,
            )
            &&& !rewritten && !replaced && !there ==> target_fault(store, t) == Some(
                "会话内容已变化，请重新更新"@,
            )
        }),
        ({
            let id = r.session_id;
            let stands = number_of(store.summary(id)) == number_of(r.context) && store.reading(id).0
                == r.generation && store.reading(id).1 == r.latest_message_seq;
            &&& stands ==> reader_fault(store, r) is None
            &&& !stands ==> reader_fault(store, r) == Some(
                "会话 "@ + id + " 的摘要或对话已变化，请重新更新"@,
            )
        }),
{
}

/// Counters leave room where one more revision and the messages can be counted.
pub proof fn when_counters_leave_room(t: Target, r: Reader)
    ensures
        target_fits(t) <==> t.from >= 0 && t.from + t.messages.len() <= i64::MAX && number_of(
            t.existing,
        ) < i64::MAX,
        reader_fits(r) <==> number_of(r.context) < i64::MAX,
{
}

} // verus!
