//! What is shown of a context.
use crate::domain::copy_text;
use crate::error::{other, AppError, Fault};
use crate::store::{
    items_of, sessions_of, workstream_in, ContextRow, Fields, ItemRow, Session,
    SessionContextFields, Store,
};
use crate::text::same;
use vstd::prelude::*;

verus! {

/// An item as it is shown.
pub struct ContextSection {
    pub kind: String,
    pub title: String,
    pub content: String,
    pub authority: String,
    pub source_ref: Option<String>,
    pub item_id: String,
    pub revision_id: Option<String>,
}

/// An item as it is shown.
pub open spec fn section(row: ItemRow) -> ContextSection {
    ContextSection {
        kind: row.item.kind,
        title: row.revision.title,
        content: row.revision.content,
        authority: row.item.authority,
        source_ref: row.revision.source_ref,
        item_id: row.item.id,
        revision_id: Some(row.revision.id),
    }
}

/// Items as they are shown.
pub open spec fn sections(rows: Seq<ItemRow>) -> Seq<ContextSection> {
    rows.map_values(|r: ItemRow| section(r))
}

/// The items of the given kinds, kind by kind, and within a kind in their own order.
pub open spec fn core_of(rows: Seq<ItemRow>, kinds: Seq<String>) -> Seq<ContextSection>
    decreases kinds.len(),
{
    if kinds.len() == 0 {
        Seq::empty()
    } else {
        core_of(rows, kinds.drop_last()) + sections(
            rows.filter(|r: ItemRow| r.item.kind@ == kinds.last()@),
        )
    }
}

fn section_of(row: &ItemRow) -> (r: ContextSection)
    ensures
        r == section(*row),
{
    ContextSection {
        kind: row.item.kind.clone(),
        title: row.revision.title.clone(),
        content: row.revision.content.clone(),
        authority: row.item.authority.clone(),
        source_ref: copy_text(&row.revision.source_ref),
        item_id: row.item.id.clone(),
        revision_id: Some(row.revision.id.clone()),
    }
}

fn add_kind(out: &mut Vec<ContextSection>, rows: &Vec<&ItemRow>, kind: &str)
    ensures
        final(out)@ == old(out)@ + sections(
            rows@.map_values(|r: &ItemRow| *r).filter(|r: ItemRow| r.item.kind@ == kind@),
        ),
{
    let ghost all = rows@.map_values(|r: &ItemRow| *r);
    let ghost wanted = |r: ItemRow| r.item.kind@ == kind@;
    let ghost before = out@;
    let mut i: usize = 0;
    proof {
        reveal(Seq::filter);
    }
    assert(all.take(0) =~= Seq::<ItemRow>::empty());
    assert(out@ =~= before + sections(all.take(0).filter(wanted)));
    while i < rows.len()
        invariant
            i <= rows@.len(),
            all == rows@.map_values(|r: &ItemRow| *r),
            wanted == (|r: ItemRow| r.item.kind@ == kind@),
            before == old(out)@,
            out@ == before + sections(all.take(i as int).filter(wanted)),
        decreases rows@.len() - i,
    {
        proof {
            reveal(Seq::filter);
        }
        assert(all.take(i + 1).drop_last() =~= all.take(i as int));
        assert(all.take(i + 1).last() == *rows@[i as int]);
        let ghost so_far = all.take(i as int).filter(wanted);
        if same(rows[i].item.kind.as_str(), kind) {
            out.push(section_of(rows[i]));
            assert(sections(so_far.push(*rows@[i as int])) =~= sections(so_far).push(
                section(*rows@[i as int]),
            ));
            assert(out@ =~= before + sections(all.take(i + 1).filter(wanted)));
        }
        i = i + 1;
    }
    assert(all.take(i as int) =~= all);
}

/// The items of a workstream that stand at its core: those in force of the given kinds, kind by
/// kind.
pub fn resolve_core_context(store: &Store, workstream_id: &str, kinds: &Vec<String>) -> (r: Vec<
    ContextSection,
>)
    ensures
        r@ == core_of(items_of(store.items@, workstream_id@), kinds@),
{
    let rows = store.items_for_workstream(workstream_id);
    let ghost all = items_of(store.items@, workstream_id@);
    let mut out: Vec<ContextSection> = Vec::new();
    let mut k: usize = 0;
    assert(kinds@.take(0) =~= Seq::<String>::empty());
    while k < kinds.len()
        invariant
            k <= kinds@.len(),
            all == rows@.map_values(|r: &ItemRow| *r),
            out@ == core_of(all, kinds@.take(k as int)),
        decreases kinds@.len() - k,
    {
        assert(kinds@.take(k + 1).drop_last() =~= kinds@.take(k as int));
        assert(kinds@.take(k + 1).last() == kinds@[k as int]);
        add_kind(&mut out, &rows, kinds[k].as_str());
        k = k + 1;
    }
    assert(kinds@.take(k as int) =~= kinds@);
    out
}

// ---------------------------------------------------------------------------
// Sessions
// ---------------------------------------------------------------------------

/// The context of a session.
pub struct SessionContextView {
    pub session_id: String,
    /// Missing where no summary was ever written.
    pub fields: Option<SessionContextFields>,
    pub revision: i64,
    pub ingest_generation: i64,
    pub processed_through_seq: i64,
    pub latest_message_seq: i64,
    pub updated_at: Option<String>,
    /// Whether an update would have something to do.
    pub pending: bool,
}

/// The context of a session, as a mathematical value.
pub struct SessionPicture {
    pub session_id: Seq<char>,
    pub fields: Option<Fields>,
    pub revision: i64,
    pub ingest_generation: i64,
    pub processed_through_seq: i64,
    pub latest_message_seq: i64,
    pub updated_at: Option<Seq<char>>,
    pub pending: bool,
}

impl DeepView for SessionContextView {
    type V = SessionPicture;

    open spec fn deep_view(&self) -> SessionPicture {
        SessionPicture {
            session_id: self.session_id@,
            fields: self.fields.deep_view(),
            revision: self.revision,
            ingest_generation: self.ingest_generation,
            processed_through_seq: self.processed_through_seq,
            latest_message_seq: self.latest_message_seq,
            updated_at: self.updated_at.deep_view(),
            pending: self.pending,
        }
    }
}

/// Whether a summary is of a conversation that was replaced since.
pub open spec fn outdated(context: Option<ContextRow>, generation: i64) -> bool {
    context matches Some(c) && c.ingest_generation != generation
}

/// How far a summary covers the present conversation.
pub open spec fn covered(context: Option<ContextRow>, generation: i64) -> i64 {
    match context {
        Some(c) => if c.ingest_generation == generation {
            c.processed_through_seq
        } else {
            0
        },
        None => 0,
    }
}

/// The revision of a summary; zero before the first.
pub open spec fn revision_of(context: Option<ContextRow>) -> i64 {
    match context {
        Some(c) => c.revision,
        None => 0,
    }
}

/// The context of a session.
pub open spec fn session_picture(store: Store, session: Seq<char>) -> SessionPicture {
    let context = store.summary(session);
    let (generation, latest) = store.reading(session);
    SessionPicture {
        session_id: session,
        fields: match context {
            Some(c) => Some(c.fields),
            None => None,
        },
        revision: revision_of(context),
        ingest_generation: generation,
        processed_through_seq: covered(context, generation),
        latest_message_seq: latest,
        updated_at: match context {
            Some(c) => Some(c.updated_at),
            None => None,
        },
        pending: outdated(context, generation) || latest > covered(context, generation),
    }
}

/// The context of a session.
pub fn session_context_view(store: &Store, session_id: &str) -> (r: SessionContextView)
    ensures
        r.deep_view() == session_picture(*store, session_id@),
{
    let ingest = store.get_session_ingest_state(session_id);
    match store.get_session_context(session_id) {
        Some(c) => {
            let changed: bool = c.ingest_generation != ingest.generation;
            let from: i64 = if changed {
                0
            } else {
                c.processed_through_seq
            };
            SessionContextView {
                session_id: session_id.to_owned(),
                fields: Some(c.fields.copy()),
                revision: c.revision,
                ingest_generation: ingest.generation,
                processed_through_seq: from,
                latest_message_seq: ingest.latest_message_seq,
                updated_at: Some(c.updated_at.clone()),
                pending: changed || ingest.latest_message_seq > from,
            }
        },
        None => SessionContextView {
            session_id: session_id.to_owned(),
            fields: None,
            revision: 0,
            ingest_generation: ingest.generation,
            processed_through_seq: 0,
            latest_message_seq: ingest.latest_message_seq,
            updated_at: None,
            pending: ingest.latest_message_seq > 0,
        },
    }
}

// ---------------------------------------------------------------------------
// Workstreams
// ---------------------------------------------------------------------------

/// The context of a workstream.
pub struct WorkstreamContextView {
    pub workstream_id: String,
    pub title: String,
    pub description: String,
    pub lifecycle: String,
    pub sections: Vec<ContextSection>,
    pub context_revision: i64,
    pub input_revision: i64,
    pub consumed_input_revision: i64,
    /// Whether an update would have something to do.
    pub pending: bool,
    pub pending_sessions: usize,
}

/// Whether a workstream has not taken in all of a session.
pub open spec fn behind(store: Store, workstream: Seq<char>, session: Seq<char>) -> bool {
    let context = store.summary(session);
    let (generation, latest) = store.reading(session);
    outdated(context, generation) || match store.frontier(workstream, session) {
        None => latest > 0,
        Some(f) => f.ingest_generation != generation || latest > f.consumed_through_seq
            || revision_of(context) > f.session_context_revision,
    }
}

/// How many sessions a workstream has not taken in all of.
pub open spec fn behind_count(store: Store, workstream: Seq<char>, sessions: Seq<Session>) -> nat
    decreases sessions.len(),
{
    if sessions.len() == 0 {
        0
    } else {
        behind_count(store, workstream, sessions.drop_last()) + if behind(
            store,
            workstream,
            sessions.last().id@,
        ) {
            1nat
        } else {
            0
        }
    }
}

/// Whether an update of a workstream would have something to do.
pub open spec fn workstream_pending(store: Store, workstream: Seq<char>) -> bool {
    let state = store.revisions(workstream);
    state.input > state.consumed_input || behind_count(
        store,
        workstream,
        sessions_of(store.sessions@, workstream),
    ) > 0
}

/// Whether a workstream has not taken in all of a session.
pub fn session_needs_workstream_update(
    store: &Store,
    workstream_id: &str,
    session_id: &str,
) -> (r: bool)
    ensures
        r == behind(*store, workstream_id@, session_id@),
{
    let ingest = store.get_session_ingest_state(session_id);
    let mut revision: i64 = 0;
    match store.get_session_context(session_id) {
        Some(c) => {
            if c.ingest_generation != ingest.generation {
                return true;
            }
            revision = c.revision;
        },
        None => {},
    }
    match store.get_frontier(workstream_id, session_id) {
        None => ingest.latest_message_seq > 0,
        Some(f) => f.ingest_generation != ingest.generation || ingest.latest_message_seq
            > f.consumed_through_seq || revision > f.session_context_revision,
    }
}

/// The context of a workstream; none where there is no such workstream.
pub fn workstream_context_view(store: &Store, workstream_id: &str) -> (r: Result<
    WorkstreamContextView,
    AppError,
>)
    ensures
        match workstream_in(store.workstreams@, workstream_id@) {
            None => r matches Err(e) && e.deep_view() == Fault::Other("Workstream 不存在"@),
            Some(w) => {
                let state = store.revisions(workstream_id@);
                let sessions = sessions_of(store.sessions@, workstream_id@);
                &&& r is Ok
                &&& r->Ok_0.workstream_id == w.id
                &&& r->Ok_0.title == w.title
                &&& r->Ok_0.description == w.description
                &&& r->Ok_0.lifecycle == w.lifecycle
                &&& r->Ok_0.sections@ == sections(items_of(store.items@, workstream_id@))
                &&& forall|k: int|
                    0 <= k < r->Ok_0.sections@.len() ==> {
                        let row = items_of(store.items@, workstream_id@)[k];
                        let s = #[trigger] r->Ok_0.sections@[k];
                        &&& s.item_id@ == row.item.id@
                        &&& s.kind@ == row.item.kind@
                        &&& s.title@ == row.revision.title@
                        &&& s.content@ == row.revision.content@
                        &&& s.authority@ == row.item.authority@
                    }
                &&& r->Ok_0.context_revision == state.context
                &&& r->Ok_0.input_revision == state.input
                &&& r->Ok_0.consumed_input_revision == state.consumed_input
                &&& r->Ok_0.pending_sessions == behind_count(*store, workstream_id@, sessions)
                &&& r->Ok_0.pending == workstream_pending(*store, workstream_id@)
            },
        },
{
    let w = match store.get_workstream(workstream_id) {
        Some(w) => w,
        None => {
            return Err(other("Workstream 不存在"));
        },
    };
    let state = store.get_workstream_context_state(workstream_id);
    let sessions = store.sessions_for_workstream(workstream_id);
    let ghost all = sessions_of(store.sessions@, workstream_id@);
    let mut pending_sessions: usize = 0;
    let mut i: usize = 0;
    assert(all.take(0) =~= Seq::<Session>::empty());
    while i < sessions.len()
        invariant
            i <= sessions@.len(),
            pending_sessions <= i,
            all == sessions@.map_values(|s: &Session| *s),
            pending_sessions == behind_count(*store, workstream_id@, all.take(i as int)),
        decreases sessions@.len() - i,
    {
        assert(all.take(i + 1).drop_last() =~= all.take(i as int));
        assert(all.take(i + 1).last() == *sessions@[i as int]);
        if session_needs_workstream_update(store, workstream_id, sessions[i].id.as_str()) {
            pending_sessions = pending_sessions + 1;
        }
        i = i + 1;
    }
    assert(all.take(i as int) =~= all);
    let rows = store.items_for_workstream(workstream_id);
    let ghost items = items_of(store.items@, workstream_id@);
    let mut shown: Vec<ContextSection> = Vec::new();
    let mut j: usize = 0;
    assert(shown@ =~= sections(items.take(0)));
    while j < rows.len()
        invariant
            j <= rows@.len(),
            items == rows@.map_values(|r: &ItemRow| *r),
            shown@ == sections(items.take(j as int)),
        decreases rows@.len() - j,
    {
        shown.push(section_of(rows[j]));
        assert(sections(items.take(j + 1)) =~= sections(items.take(j as int)).push(
            section(*rows@[j as int]),
        ));
        j = j + 1;
    }
    assert(items.take(j as int) =~= items);
    Ok(
        WorkstreamContextView {
            workstream_id: w.id.clone(),
            title: w.title.clone(),
            description: w.description.clone(),
            lifecycle: w.lifecycle.clone(),
            sections: shown,
            context_revision: state.context_revision,
            input_revision: state.input_revision,
            consumed_input_revision: state.consumed_input_revision,
            pending: state.input_revision > state.consumed_input_revision || pending_sessions > 0,
            pending_sessions,
        },
    )
}

/// A summary that is missing has revision zero; one that is there has its own.
pub proof fn which_revision_a_summary_has(c: ContextRow)
    ensures
        revision_of(None) == 0,
        revision_of(Some(c)) == c.revision,
{
}

} // verus!
