//! The rows that the rules read and write.
//!
//! A [`Store`] is the part of the database that a decision is made on, as plain rows. What is
//! keyed (a context by its session, a frontier by its workstream and session, a state by its
//! workstream) is a map: the last row with a key counts.
use crate::domain::{copy_text, copy_texts, Agent, SessionMessageRole};
use crate::json::Json;
use crate::text::{same, texts};
use vstd::prelude::*;

verus! {

// ---------------------------------------------------------------------------
// Rows
// ---------------------------------------------------------------------------

/// A session that people see: all members of one conversation.
pub struct Session {
    pub id: String,
    pub agent: Agent,
    pub root_agent_session_id: String,
    pub title: Option<String>,
    pub owner_workstream_id: Option<String>,
    pub cwd: Option<String>,
    pub workspace_path_id: Option<String>,
    pub project_id: Option<String>,
    pub forked_from_session_id: Option<String>,
    pub started_at: Option<String>,
    pub last_activity_at: Option<String>,
    pub last_conversation_at: Option<String>,
    pub trashed_at: Option<String>,
}

impl Session {
    /// Whether the session is in the trash.
    pub fn is_trashed(&self) -> (r: bool)
        ensures
            r == (self.trashed_at is Some),
    {
        self.trashed_at.is_some()
    }

    /// The same session.
    pub fn copy(&self) -> (r: Session)
        ensures
            r == *self,
    {
        Session {
            id: self.id.clone(),
            agent: self.agent,
            root_agent_session_id: self.root_agent_session_id.clone(),
            title: copy_text(&self.title),
            owner_workstream_id: copy_text(&self.owner_workstream_id),
            cwd: copy_text(&self.cwd),
            workspace_path_id: copy_text(&self.workspace_path_id),
            project_id: copy_text(&self.project_id),
            forked_from_session_id: copy_text(&self.forked_from_session_id),
            started_at: copy_text(&self.started_at),
            last_activity_at: copy_text(&self.last_activity_at),
            last_conversation_at: copy_text(&self.last_conversation_at),
            trashed_at: copy_text(&self.trashed_at),
        }
    }
}

/// A line of work.
pub struct Workstream {
    pub id: String,
    pub title: String,
    pub description: String,
    pub lifecycle: String,
    pub visibility: String,
    pub created_at: String,
    pub updated_at: String,
}

impl Workstream {
    /// The same workstream.
    pub fn copy(&self) -> (r: Workstream)
        ensures
            r == *self,
    {
        Workstream {
            id: self.id.clone(),
            title: self.title.clone(),
            description: self.description.clone(),
            lifecycle: self.lifecycle.clone(),
            visibility: self.visibility.clone(),
            created_at: self.created_at.clone(),
            updated_at: self.updated_at.clone(),
        }
    }
}

/// An item of a workstream's context.
pub struct ContextItem {
    pub id: String,
    pub workstream_id: String,
    pub kind: String,
    pub status: String,
    pub authority: String,
    pub created_by: String,
    pub current_revision_id: Option<String>,
    pub supersedes_item_id: Option<String>,
    pub created_at: String,
    pub updated_at: String,
}

/// What an item says, at one time.
pub struct ContextItemRevision {
    pub id: String,
    pub item_id: String,
    pub title: String,
    pub content: String,
    pub metadata: Json,
    pub source_type: Option<String>,
    pub source_ref: Option<String>,
    pub sync_run_id: Option<String>,
    pub created_at: String,
}

/// An item with its current revision.
pub struct ItemRow {
    pub item: ContextItem,
    pub revision: ContextItemRevision,
}

/// A contradiction between items.
pub struct ContextConflict {
    pub id: String,
    pub workstream_id: String,
    pub open: bool,
}

/// A summary of a session.
pub struct SessionContextFields {
    pub summary_current_state: String,
    pub decisions: Vec<String>,
    pub open_questions: Vec<String>,
    pub next_steps: Vec<String>,
}

/// A summary of a session, as a mathematical value.
pub struct Fields {
    pub summary_current_state: Seq<char>,
    pub decisions: Seq<Seq<char>>,
    pub open_questions: Seq<Seq<char>>,
    pub next_steps: Seq<Seq<char>>,
}

impl DeepView for SessionContextFields {
    type V = Fields;

    open spec fn deep_view(&self) -> Fields {
        Fields {
            summary_current_state: self.summary_current_state@,
            decisions: texts(self.decisions@),
            open_questions: texts(self.open_questions@),
            next_steps: texts(self.next_steps@),
        }
    }
}

impl Fields {
    /// A summary that says nothing.
    pub open spec fn blank() -> Fields {
        Fields {
            summary_current_state: Seq::empty(),
            decisions: Seq::empty(),
            open_questions: Seq::empty(),
            next_steps: Seq::empty(),
        }
    }
}

impl Default for SessionContextFields {
    fn default() -> (r: SessionContextFields)
        ensures
            r.deep_view() == Fields::blank(),
    {
        let r = SessionContextFields {
            summary_current_state: String::new(),
            decisions: Vec::new(),
            open_questions: Vec::new(),
            next_steps: Vec::new(),
        };
        assert(texts(r.decisions@) =~= Seq::<Seq<char>>::empty());
        assert(texts(r.open_questions@) =~= Seq::<Seq<char>>::empty());
        assert(texts(r.next_steps@) =~= Seq::<Seq<char>>::empty());
        r
    }
}

impl SessionContextFields {
    /// The same summary.
    pub fn copy(&self) -> (r: SessionContextFields)
        ensures
            r.deep_view() == self.deep_view(),
    {
        SessionContextFields {
            summary_current_state: self.summary_current_state.clone(),
            decisions: copy_texts(&self.decisions),
            open_questions: copy_texts(&self.open_questions),
            next_steps: copy_texts(&self.next_steps),
        }
    }
}

/// The stored summary of a session: how often it was written, and which messages it covers.
pub struct SessionContextRecord {
    pub session_id: String,
    pub fields: SessionContextFields,
    pub revision: i64,
    pub ingest_generation: i64,
    pub processed_through_seq: i64,
    pub updated_at: String,
}

/// The stored summary of a session, as a mathematical value.
pub struct ContextRow {
    pub session_id: Seq<char>,
    pub fields: Fields,
    pub revision: i64,
    pub ingest_generation: i64,
    pub processed_through_seq: i64,
    pub updated_at: Seq<char>,
}

impl DeepView for SessionContextRecord {
    type V = ContextRow;

    open spec fn deep_view(&self) -> ContextRow {
        ContextRow {
            session_id: self.session_id@,
            fields: self.fields.deep_view(),
            revision: self.revision,
            ingest_generation: self.ingest_generation,
            processed_through_seq: self.processed_through_seq,
            updated_at: self.updated_at@,
        }
    }
}

impl SessionContextRecord {
    /// The same record.
    pub fn copy(&self) -> (r: SessionContextRecord)
        ensures
            r.deep_view() == self.deep_view(),
    {
        SessionContextRecord {
            session_id: self.session_id.clone(),
            fields: self.fields.copy(),
            revision: self.revision,
            ingest_generation: self.ingest_generation,
            processed_through_seq: self.processed_through_seq,
            updated_at: self.updated_at.clone(),
        }
    }
}

/// How far a session has been read. The generation counts how often its conversation was
/// replaced.
pub struct SessionIngestState {
    pub session_id: String,
    pub generation: i64,
    pub latest_message_seq: i64,
}

/// A message of a session.
pub struct SessionMessage {
    pub id: String,
    pub session_id: String,
    pub source_message_id: Option<String>,
    pub sequence: i64,
    pub ts: Option<String>,
    pub role: SessionMessageRole,
    pub content: String,
}

impl SessionMessage {
    /// The same message.
    pub fn copy(&self) -> (r: SessionMessage)
        ensures
            r == *self,
    {
        SessionMessage {
            id: self.id.clone(),
            session_id: self.session_id.clone(),
            source_message_id: copy_text(&self.source_message_id),
            sequence: self.sequence,
            ts: copy_text(&self.ts),
            role: self.role,
            content: self.content.clone(),
        }
    }
}

/// What a workstream has taken in of a session.
pub struct WorkstreamSessionFrontier {
    pub workstream_id: String,
    pub session_id: String,
    pub session_context_revision: i64,
    pub ingest_generation: i64,
    pub consumed_through_seq: i64,
}

impl WorkstreamSessionFrontier {
    /// The same frontier.
    pub fn copy(&self) -> (r: WorkstreamSessionFrontier)
        ensures
            r == *self,
    {
        WorkstreamSessionFrontier {
            workstream_id: self.workstream_id.clone(),
            session_id: self.session_id.clone(),
            session_context_revision: self.session_context_revision,
            ingest_generation: self.ingest_generation,
            consumed_through_seq: self.consumed_through_seq,
        }
    }
}

/// What a workstream has taken in of a session, as a mathematical value.
pub struct Taken {
    pub session_context_revision: i64,
    pub ingest_generation: i64,
    pub consumed_through_seq: i64,
}

impl DeepView for WorkstreamSessionFrontier {
    type V = Taken;

    open spec fn deep_view(&self) -> Taken {
        Taken {
            session_context_revision: self.session_context_revision,
            ingest_generation: self.ingest_generation,
            consumed_through_seq: self.consumed_through_seq,
        }
    }
}

/// The revisions of a workstream: of its context, of what people put in, and of how much of that
/// the context has taken in.
pub struct WorkstreamContextState {
    pub workstream_id: String,
    pub context_revision: i64,
    pub input_revision: i64,
    pub consumed_input_revision: i64,
}

/// The revisions of a workstream, as a mathematical value.
pub struct Revisions {
    pub context: i64,
    pub input: i64,
    pub consumed_input: i64,
}

impl DeepView for WorkstreamContextState {
    type V = Revisions;

    open spec fn deep_view(&self) -> Revisions {
        Revisions {
            context: self.context_revision,
            input: self.input_revision,
            consumed_input: self.consumed_input_revision,
        }
    }
}

// ---------------------------------------------------------------------------
// The store
// ---------------------------------------------------------------------------

/// The rows that a decision is made on.
pub struct Store {
    pub workstreams: Vec<Workstream>,
    pub sessions: Vec<Session>,
    pub items: Vec<ItemRow>,
    pub conflicts: Vec<ContextConflict>,
    pub messages: Vec<SessionMessage>,
    pub ingest: Vec<SessionIngestState>,
    pub contexts: Vec<SessionContextRecord>,
    pub frontiers: Vec<WorkstreamSessionFrontier>,
    pub states: Vec<WorkstreamContextState>,
}

/// The summaries, by session.
pub open spec fn contexts_in(rows: Seq<ContextRow>) -> Map<Seq<char>, ContextRow>
    decreases rows.len(),
{
    if rows.len() == 0 {
        Map::empty()
    } else {
        contexts_in(rows.drop_last()).insert(rows.last().session_id, rows.last())
    }
}

/// What a frontier is kept under: its workstream and its session.
pub open spec fn frontier_key(f: WorkstreamSessionFrontier) -> (Seq<char>, Seq<char>) {
    (f.workstream_id@, f.session_id@)
}

/// The frontiers, by workstream and session.
pub open spec fn frontiers_in(rows: Seq<WorkstreamSessionFrontier>) -> Map<
    (Seq<char>, Seq<char>),
    Taken,
>
    decreases rows.len(),
{
    if rows.len() == 0 {
        Map::empty()
    } else {
        frontiers_in(rows.drop_last()).insert(
            frontier_key(rows.last()),
            rows.last().deep_view(),
        )
    }
}

/// The revisions, by workstream.
pub open spec fn states_in(rows: Seq<WorkstreamContextState>) -> Map<Seq<char>, Revisions>
    decreases rows.len(),
{
    if rows.len() == 0 {
        Map::empty()
    } else {
        states_in(rows.drop_last()).insert(rows.last().workstream_id@, rows.last().deep_view())
    }
}

/// How far sessions have been read, by session.
pub open spec fn ingest_in(rows: Seq<SessionIngestState>) -> Map<Seq<char>, (i64, i64)>
    decreases rows.len(),
{
    if rows.len() == 0 {
        Map::empty()
    } else {
        ingest_in(rows.drop_last()).insert(
            rows.last().session_id@,
            (rows.last().generation, rows.last().latest_message_seq),
        )
    }
}

/// The messages of a session, in order.
pub open spec fn messages_of(rows: Seq<SessionMessage>, session: Seq<char>) -> Seq<SessionMessage> {
    rows.filter(|m: SessionMessage| m.session_id@ == session)
}

/// The messages of a session behind a sequence number, in order.
pub open spec fn messages_behind(
    rows: Seq<SessionMessage>,
    session: Seq<char>,
    after: int,
) -> Seq<SessionMessage> {
    rows.filter(|m: SessionMessage| m.session_id@ == session && m.sequence > after)
}

/// The first messages, at most so many.
pub open spec fn at_most(rows: Seq<SessionMessage>, limit: nat) -> Seq<SessionMessage> {
    if rows.len() <= limit {
        rows
    } else {
        rows.take(limit as int)
    }
}

/// The ids of messages.
pub open spec fn message_ids(rows: Seq<SessionMessage>) -> Seq<Seq<char>> {
    rows.map_values(|m: SessionMessage| m.id@)
}

/// The sessions of a workstream that are not in the trash, in order.
pub open spec fn sessions_of(rows: Seq<Session>, workstream: Seq<char>) -> Seq<Session> {
    rows.filter(|s: Session| owned_by(s, workstream) && s.trashed_at is None)
}

/// Whether a session belongs to a workstream.
pub open spec fn owned_by(s: Session, workstream: Seq<char>) -> bool {
    s.owner_workstream_id.deep_view() == Some(workstream)
}

/// The items of a workstream that are in force, in order.
pub open spec fn items_of(rows: Seq<ItemRow>, workstream: Seq<char>) -> Seq<ItemRow> {
    rows.filter(|r: ItemRow| r.item.workstream_id@ == workstream && r.item.status@ == "active"@)
}

/// The items of a workstream, in force or not, in order.
pub open spec fn all_items_of(rows: Seq<ItemRow>, workstream: Seq<char>) -> Seq<ItemRow> {
    rows.filter(|r: ItemRow| r.item.workstream_id@ == workstream)
}

/// The open contradictions of a workstream, in order.
pub open spec fn open_conflicts_of(rows: Seq<ContextConflict>, workstream: Seq<char>) -> Seq<
    ContextConflict,
> {
    rows.filter(|c: ContextConflict| c.workstream_id@ == workstream && c.open)
}

/// The first workstream with an id.
pub open spec fn workstream_in(rows: Seq<Workstream>, id: Seq<char>) -> Option<Workstream>
    decreases rows.len(),
{
    if rows.len() == 0 {
        None
    } else if rows[0].id@ == id {
        Some(rows[0])
    } else {
        workstream_in(rows.drop_first(), id)
    }
}

/// The first session with an id.
pub open spec fn session_in(rows: Seq<Session>, id: Seq<char>) -> Option<Session>
    decreases rows.len(),
{
    if rows.len() == 0 {
        None
    } else if rows[0].id@ == id {
        Some(rows[0])
    } else {
        session_in(rows.drop_first(), id)
    }
}

/// Where the first session with an id stands.
pub open spec fn session_place(rows: Seq<Session>, id: Seq<char>) -> Option<int>
    decreases rows.len(),
{
    if rows.len() == 0 {
        None
    } else if rows[0].id@ == id {
        Some(0)
    } else {
        match session_place(rows.drop_first(), id) {
            Some(i) => Some(i + 1),
            None => None,
        }
    }
}

/// The session with an id is the one that stands at its place.
pub proof fn a_session_stands_at_its_place(rows: Seq<Session>, id: Seq<char>)
    ensures
        match session_place(rows, id) {
            Some(i) => 0 <= i < rows.len() && rows[i].id@ == id && session_in(rows, id) == Some(
                rows[i],
            ),
            None => session_in(rows, id) is None,
        },
    decreases rows.len(),
{
    if rows.len() > 0 {
        a_session_stands_at_its_place(rows.drop_first(), id);
    }
}

/// The first item with an id.
pub open spec fn item_in(rows: Seq<ItemRow>, id: Seq<char>) -> Option<ItemRow>
    decreases rows.len(),
{
    if rows.len() == 0 {
        None
    } else if rows[0].item.id@ == id {
        Some(rows[0])
    } else {
        item_in(rows.drop_first(), id)
    }
}

/// Where the first item with an id stands.
pub open spec fn item_place(rows: Seq<ItemRow>, id: Seq<char>) -> Option<int>
    decreases rows.len(),
{
    if rows.len() == 0 {
        None
    } else if rows[0].item.id@ == id {
        Some(0)
    } else {
        match item_place(rows.drop_first(), id) {
            Some(i) => Some(i + 1),
            None => None,
        }
    }
}

/// How many contradictions of a workstream are open.
pub open spec fn open_conflicts(rows: Seq<ContextConflict>, workstream: Seq<char>) -> nat {
    rows.filter(|c: ContextConflict| c.workstream_id@ == workstream && c.open).len()
}

impl Store {
    /// The summaries, by session.
    pub open spec fn summaries(self) -> Map<Seq<char>, ContextRow> {
        contexts_in(self.contexts.deep_view())
    }

    /// The frontiers, by workstream and session.
    pub open spec fn taken_in(self) -> Map<(Seq<char>, Seq<char>), Taken> {
        frontiers_in(self.frontiers@)
    }

    /// The summary of a session.
    pub open spec fn summary(self, session: Seq<char>) -> Option<ContextRow> {
        if self.summaries().contains_key(session) {
            Some(self.summaries()[session])
        } else {
            None
        }
    }

    /// The frontier of a session in a workstream.
    pub open spec fn frontier(self, workstream: Seq<char>, session: Seq<char>) -> Option<Taken> {
        if self.taken_in().contains_key((workstream, session)) {
            Some(self.taken_in()[(workstream, session)])
        } else {
            None
        }
    }

    /// The revisions of a workstream; all are zero before anything was written.
    pub open spec fn revisions(self, workstream: Seq<char>) -> Revisions {
        let rows = states_in(self.states@);
        if rows.contains_key(workstream) {
            rows[workstream]
        } else {
            Revisions { context: 0, input: 0, consumed_input: 0 }
        }
    }

    /// The generation of a session's conversation, and the number of its last message.
    pub open spec fn reading(self, session: Seq<char>) -> (i64, i64) {
        let rows = ingest_in(self.ingest@);
        if rows.contains_key(session) {
            rows[session]
        } else {
            (0, 0)
        }
    }
}

// ---------------------------------------------------------------------------
// Reading
// ---------------------------------------------------------------------------

impl Store {
    /// A store without rows.
    pub fn new() -> (r: Store)
        ensures
            r.workstreams@.len() == 0,
            r.sessions@.len() == 0,
            r.items@.len() == 0,
            r.conflicts@.len() == 0,
            r.messages@.len() == 0,
            r.ingest@.len() == 0,
            r.contexts@.len() == 0,
            r.frontiers@.len() == 0,
            r.states@.len() == 0,
    {
        Store {
            workstreams: Vec::new(),
            sessions: Vec::new(),
            items: Vec::new(),
            conflicts: Vec::new(),
            messages: Vec::new(),
            ingest: Vec::new(),
            contexts: Vec::new(),
            frontiers: Vec::new(),
            states: Vec::new(),
        }
    }

    /// The workstream with an id.
    pub fn get_workstream(&self, id: &str) -> (r: Option<&Workstream>)
        ensures
            match r {
                Some(w) => workstream_in(self.workstreams@, id@) == Some(*w),
                None => workstream_in(self.workstreams@, id@) is None,
            },
    {
        let ghost all = self.workstreams@;
        let mut i: usize = 0;
        assert(all.skip(0) =~= all);
        while i < self.workstreams.len()
            invariant
                i <= self.workstreams@.len(),
                all == self.workstreams@,
                workstream_in(all, id@) == workstream_in(all.skip(i as int), id@),
            decreases self.workstreams@.len() - i,
        {
            assert(all.skip(i as int)[0] == all[i as int]);
            assert(all.skip(i as int).drop_first() =~= all.skip(i + 1));
            if same(self.workstreams[i].id.as_str(), id) {
                return Some(&self.workstreams[i]);
            }
            i = i + 1;
        }
        None
    }

    /// The session with an id.
    pub fn get_session(&self, id: &str) -> (r: Option<&Session>)
        ensures
            match r {
                Some(s) => session_in(self.sessions@, id@) == Some(*s),
                None => session_in(self.sessions@, id@) is None,
            },
    {
        let ghost all = self.sessions@;
        let mut i: usize = 0;
        assert(all.skip(0) =~= all);
        while i < self.sessions.len()
            invariant
                i <= self.sessions@.len(),
                all == self.sessions@,
                session_in(all, id@) == session_in(all.skip(i as int), id@),
            decreases self.sessions@.len() - i,
        {
            assert(all.skip(i as int)[0] == all[i as int]);
            assert(all.skip(i as int).drop_first() =~= all.skip(i + 1));
            if same(self.sessions[i].id.as_str(), id) {
                return Some(&self.sessions[i]);
            }
            i = i + 1;
        }
        None
    }

    /// Where the session with an id stands.
    pub fn session_position(&self, id: &str) -> (r: Option<usize>)
        ensures
            match r {
                Some(i) => session_place(self.sessions@, id@) == Some(i as int) && i
                    < self.sessions@.len(),
                None => session_place(self.sessions@, id@) is None,
            },
    {
        let ghost all = self.sessions@;
        let mut i: usize = 0;
        assert(all.skip(0) =~= all);
        while i < self.sessions.len()
            invariant
                i <= self.sessions@.len(),
                all == self.sessions@,
                session_place(all, id@) == (match session_place(all.skip(i as int), id@) {
                    Some(k) => Some(i + k),
                    None => None,
                }),
            decreases self.sessions@.len() - i,
        {
            assert(all.skip(i as int)[0] == all[i as int]);
            assert(all.skip(i as int).drop_first() =~= all.skip(i + 1));
            if same(self.sessions[i].id.as_str(), id) {
                return Some(i);
            }
            i = i + 1;
        }
        None
    }

    /// The item with an id.
    pub fn get_item(&self, id: &str) -> (r: Option<&ItemRow>)
        ensures
            match r {
                Some(row) => item_in(self.items@, id@) == Some(*row),
                None => item_in(self.items@, id@) is None,
            },
    {
        let ghost all = self.items@;
        let mut i: usize = 0;
        assert(all.skip(0) =~= all);
        while i < self.items.len()
            invariant
                i <= self.items@.len(),
                all == self.items@,
                item_in(all, id@) == item_in(all.skip(i as int), id@),
            decreases self.items@.len() - i,
        {
            assert(all.skip(i as int)[0] == all[i as int]);
            assert(all.skip(i as int).drop_first() =~= all.skip(i + 1));
            if same(self.items[i].item.id.as_str(), id) {
                return Some(&self.items[i]);
            }
            i = i + 1;
        }
        None
    }

    /// Where the item with an id stands.
    pub fn item_position(&self, id: &str) -> (r: Option<usize>)
        ensures
            match r {
                Some(i) => item_place(self.items@, id@) == Some(i as int) && i < self.items@.len(),
                None => item_place(self.items@, id@) is None,
            },
    {
        let ghost all = self.items@;
        let mut i: usize = 0;
        assert(all.skip(0) =~= all);
        while i < self.items.len()
            invariant
                i <= self.items@.len(),
                all == self.items@,
                item_place(all, id@) == (match item_place(all.skip(i as int), id@) {
                    Some(k) => Some(i + k),
                    None => None,
                }),
            decreases self.items@.len() - i,
        {
            assert(all.skip(i as int)[0] == all[i as int]);
            assert(all.skip(i as int).drop_first() =~= all.skip(i + 1));
            if same(self.items[i].item.id.as_str(), id) {
                return Some(i);
            }
            i = i + 1;
        }
        None
    }

    /// The summary of a session.
    pub fn get_session_context(&self, session_id: &str) -> (r: Option<&SessionContextRecord>)
        ensures
            match r {
                Some(c) => self.summary(session_id@) == Some(c.deep_view()),
                None => self.summary(session_id@) is None,
            },
    {
        let ghost all = self.contexts.deep_view();
        let mut i: usize = self.contexts.len();
        assert(all.take(i as int) =~= all);
        while i > 0
            invariant
                i <= self.contexts@.len(),
                all == self.contexts.deep_view(),
                contexts_in(all).contains_key(session_id@) == contexts_in(
                    all.take(i as int),
                ).contains_key(session_id@),
                contexts_in(all).contains_key(session_id@) ==> contexts_in(all)[session_id@]
                    == contexts_in(all.take(i as int))[session_id@],
            decreases i,
        {
            assert(all.take(i as int).drop_last() =~= all.take(i - 1));
            assert(all.take(i as int).last() == self.contexts@[i - 1].deep_view());
            i = i - 1;
            if same(self.contexts[i].session_id.as_str(), session_id) {
                return Some(&self.contexts[i]);
            }
        }
        assert(all.take(0) =~= Seq::<ContextRow>::empty());
        None
    }

    /// The frontier of a session in a workstream.
    pub fn get_frontier(&self, workstream_id: &str, session_id: &str) -> (r: Option<
        &WorkstreamSessionFrontier,
    >)
        ensures
            match r {
                Some(f) => self.frontier(workstream_id@, session_id@) == Some(f.deep_view()),
                None => self.frontier(workstream_id@, session_id@) is None,
            },
    {
        let ghost all = self.frontiers@;
        let ghost key = (workstream_id@, session_id@);
        let mut i: usize = self.frontiers.len();
        assert(all.take(i as int) =~= all);
        while i > 0
            invariant
                i <= self.frontiers@.len(),
                all == self.frontiers@,
                key == (workstream_id@, session_id@),
                frontiers_in(all).contains_key(key) == frontiers_in(
                    all.take(i as int),
                ).contains_key(key),
                frontiers_in(all).contains_key(key) ==> frontiers_in(all)[key] == frontiers_in(
                    all.take(i as int),
                )[key],
            decreases i,
        {
            assert(all.take(i as int).drop_last() =~= all.take(i - 1));
            assert(all.take(i as int).last() == self.frontiers@[i - 1]);
            i = i - 1;
            if same(self.frontiers[i].workstream_id.as_str(), workstream_id) && same(
                self.frontiers[i].session_id.as_str(),
                session_id,
            ) {
                return Some(&self.frontiers[i]);
            }
        }
        assert(all.take(0) =~= Seq::<WorkstreamSessionFrontier>::empty());
        None
    }

    /// The revisions of a workstream.
    pub fn get_workstream_context_state(&self, workstream_id: &str) -> (r: WorkstreamContextState)
        ensures
            r.deep_view() == self.revisions(workstream_id@),
            r.workstream_id@ == workstream_id@,
    {
        let ghost all = self.states@;
        let mut i: usize = self.states.len();
        assert(all.take(i as int) =~= all);
        while i > 0
            invariant
                i <= self.states@.len(),
                all == self.states@,
                states_in(all).contains_key(workstream_id@) == states_in(
                    all.take(i as int),
                ).contains_key(workstream_id@),
                states_in(all).contains_key(workstream_id@) ==> states_in(all)[workstream_id@]
                    == states_in(all.take(i as int))[workstream_id@],
            decreases i,
        {
            assert(all.take(i as int).drop_last() =~= all.take(i - 1));
            assert(all.take(i as int).last() == self.states@[i - 1]);
            i = i - 1;
            if same(self.states[i].workstream_id.as_str(), workstream_id) {
                return WorkstreamContextState {
                    workstream_id: workstream_id.to_owned(),
                    context_revision: self.states[i].context_revision,
                    input_revision: self.states[i].input_revision,
                    consumed_input_revision: self.states[i].consumed_input_revision,
                };
            }
        }
        assert(all.take(0) =~= Seq::<WorkstreamContextState>::empty());
        WorkstreamContextState {
            workstream_id: workstream_id.to_owned(),
            context_revision: 0,
            input_revision: 0,
            consumed_input_revision: 0,
        }
    }

    /// How far a session has been read.
    pub fn get_session_ingest_state(&self, session_id: &str) -> (r: SessionIngestState)
        ensures
            (r.generation, r.latest_message_seq) == self.reading(session_id@),
            r.session_id@ == session_id@,
    {
        let ghost all = self.ingest@;
        let mut i: usize = self.ingest.len();
        assert(all.take(i as int) =~= all);
        while i > 0
            invariant
                i <= self.ingest@.len(),
                all == self.ingest@,
                ingest_in(all).contains_key(session_id@) == ingest_in(
                    all.take(i as int),
                ).contains_key(session_id@),
                ingest_in(all).contains_key(session_id@) ==> ingest_in(all)[session_id@]
                    == ingest_in(all.take(i as int))[session_id@],
            decreases i,
        {
            assert(all.take(i as int).drop_last() =~= all.take(i - 1));
            assert(all.take(i as int).last() == self.ingest@[i - 1]);
            i = i - 1;
            if same(self.ingest[i].session_id.as_str(), session_id) {
                return SessionIngestState {
                    session_id: session_id.to_owned(),
                    generation: self.ingest[i].generation,
                    latest_message_seq: self.ingest[i].latest_message_seq,
                };
            }
        }
        assert(all.take(0) =~= Seq::<SessionIngestState>::empty());
        SessionIngestState {
            session_id: session_id.to_owned(),
            generation: 0,
            latest_message_seq: 0,
        }
    }

    /// The messages of a session behind a sequence number, in order; at most so many.
    pub fn get_messages_after(&self, session_id: &str, after: i64, limit: usize) -> (r: Vec<
        SessionMessage,
    >)
        ensures
            r@ == at_most(messages_behind(self.messages@, session_id@, after as int), limit as nat),
    {
        let ghost all = self.messages@;
        let ghost wanted = |m: SessionMessage|
            m.session_id@ == session_id@ && m.sequence > after as int;
        let mut out: Vec<SessionMessage> = Vec::new();
        let mut i: usize = 0;
        proof {
            reveal(Seq::filter);
        }
        assert(all.take(0) =~= Seq::<SessionMessage>::empty());
        while i < self.messages.len()
            invariant
                i <= self.messages@.len(),
                all == self.messages@,
                wanted == (|m: SessionMessage|
                    m.session_id@ == session_id@ && m.sequence > after as int),
                out@ == all.take(i as int).filter(wanted),
            decreases self.messages@.len() - i,
        {
            proof {
                reveal(Seq::filter);
            }
            assert(all.take(i + 1).drop_last() =~= all.take(i as int));
            assert(all.take(i + 1).last() == all[i as int]);
            if self.messages[i].sequence > after && same(
                self.messages[i].session_id.as_str(),
                session_id,
            ) {
                out.push(self.messages[i].copy());
            }
            i = i + 1;
        }
        assert(all.take(i as int) =~= all);
        if out.len() > limit {
            out.truncate(limit);
        }
        out
    }

    /// The ids of a session's messages, in order.
    pub fn projection_ids(&self, session_id: &str) -> (r: Vec<String>)
        ensures
            texts(r@) == message_ids(messages_of(self.messages@, session_id@)),
    {
        let ghost all = self.messages@;
        let ghost wanted = |m: SessionMessage| m.session_id@ == session_id@;
        let mut out: Vec<String> = Vec::new();
        let mut i: usize = 0;
        proof {
            reveal(Seq::filter);
        }
        assert(all.take(0) =~= Seq::<SessionMessage>::empty());
        assert(texts(out@) =~= message_ids(all.take(0).filter(wanted)));
        while i < self.messages.len()
            invariant
                i <= self.messages@.len(),
                all == self.messages@,
                wanted == (|m: SessionMessage| m.session_id@ == session_id@),
                texts(out@) == message_ids(all.take(i as int).filter(wanted)),
            decreases self.messages@.len() - i,
        {
            proof {
                reveal(Seq::filter);
            }
            assert(all.take(i + 1).drop_last() =~= all.take(i as int));
            assert(all.take(i + 1).last() == all[i as int]);
            if same(self.messages[i].session_id.as_str(), session_id) {
                let ghost before = texts(out@);
                out.push(self.messages[i].id.clone());
                assert(texts(out@) =~= before.push(all[i as int].id@));
                assert(message_ids(all.take(i + 1).filter(wanted)) =~= message_ids(
                    all.take(i as int).filter(wanted),
                ).push(all[i as int].id@));
            }
            i = i + 1;
        }
        assert(all.take(i as int) =~= all);
        out
    }

    /// Where the sessions of a workstream stand that are not in the trash, in order.
    pub fn sessions_for_workstream(&self, workstream_id: &str) -> (r: Vec<&Session>)
        ensures
            r@.map_values(|s: &Session| *s) == sessions_of(self.sessions@, workstream_id@),
    {
        let ghost all = self.sessions@;
        let ghost wanted = |s: Session| owned_by(s, workstream_id@) && s.trashed_at is None;
        let mut out: Vec<&Session> = Vec::new();
        let mut i: usize = 0;
        proof {
            reveal(Seq::filter);
        }
        assert(all.take(0) =~= Seq::<Session>::empty());
        assert(out@.map_values(|s: &Session| *s) =~= all.take(0).filter(wanted));
        while i < self.sessions.len()
            invariant
                i <= self.sessions@.len(),
                all == self.sessions@,
                wanted == (|s: Session| owned_by(s, workstream_id@) && s.trashed_at is None),
                out@.map_values(|s: &Session| *s) == all.take(i as int).filter(wanted),
            decreases self.sessions@.len() - i,
        {
            proof {
                reveal(Seq::filter);
            }
            assert(all.take(i + 1).drop_last() =~= all.take(i as int));
            assert(all.take(i + 1).last() == all[i as int]);
            let owned: bool = match &self.sessions[i].owner_workstream_id {
                Some(w) => same(w.as_str(), workstream_id),
                None => false,
            };
            if owned && !self.sessions[i].is_trashed() {
                let ghost before = out@.map_values(|s: &Session| *s);
                out.push(&self.sessions[i]);
                assert(out@.map_values(|s: &Session| *s) =~= before.push(all[i as int]));
            }
            i = i + 1;
        }
        assert(all.take(i as int) =~= all);
        out
    }

    /// The items of a workstream that are in force, in order.
    pub fn items_for_workstream(&self, workstream_id: &str) -> (r: Vec<&ItemRow>)
        ensures
            r@.map_values(|s: &ItemRow| *s) == items_of(self.items@, workstream_id@),
    {
        let ghost all = self.items@;
        let ghost wanted = |r: ItemRow|
            r.item.workstream_id@ == workstream_id@ && r.item.status@ == "active"@;
        let mut out: Vec<&ItemRow> = Vec::new();
        let mut i: usize = 0;
        proof {
            reveal(Seq::filter);
        }
        assert(all.take(0) =~= Seq::<ItemRow>::empty());
        assert(out@.map_values(|s: &ItemRow| *s) =~= all.take(0).filter(wanted));
        while i < self.items.len()
            invariant
                i <= self.items@.len(),
                all == self.items@,
                wanted == (|r: ItemRow|
                    r.item.workstream_id@ == workstream_id@ && r.item.status@ == "active"@),
                out@.map_values(|s: &ItemRow| *s) == all.take(i as int).filter(wanted),
            decreases self.items@.len() - i,
        {
            proof {
                reveal(Seq::filter);
            }
            assert(all.take(i + 1).drop_last() =~= all.take(i as int));
            assert(all.take(i + 1).last() == all[i as int]);
            if same(self.items[i].item.workstream_id.as_str(), workstream_id) && same(
                self.items[i].item.status.as_str(),
                "active",
            ) {
                let ghost before = out@.map_values(|s: &ItemRow| *s);
                out.push(&self.items[i]);
                assert(out@.map_values(|s: &ItemRow| *s) =~= before.push(all[i as int]));
            }
            i = i + 1;
        }
        assert(all.take(i as int) =~= all);
        out
    }

    /// The items of a workstream, in force or not, in order.
    pub fn all_items_for_workstream(&self, workstream_id: &str) -> (r: Vec<&ItemRow>)
        ensures
            r@.map_values(|s: &ItemRow| *s) == all_items_of(self.items@, workstream_id@),
    {
        let ghost all = self.items@;
        let ghost wanted = |r: ItemRow| r.item.workstream_id@ == workstream_id@;
        let mut out: Vec<&ItemRow> = Vec::new();
        let mut i: usize = 0;
        proof {
            reveal(Seq::filter);
        }
        assert(all.take(0) =~= Seq::<ItemRow>::empty());
        assert(out@.map_values(|s: &ItemRow| *s) =~= all.take(0).filter(wanted));
        while i < self.items.len()
            invariant
                i <= self.items@.len(),
                all == self.items@,
                wanted == (|r: ItemRow| r.item.workstream_id@ == workstream_id@),
                out@.map_values(|s: &ItemRow| *s) == all.take(i as int).filter(wanted),
            decreases self.items@.len() - i,
        {
            proof {
                reveal(Seq::filter);
            }
            assert(all.take(i + 1).drop_last() =~= all.take(i as int));
            assert(all.take(i + 1).last() == all[i as int]);
            if same(self.items[i].item.workstream_id.as_str(), workstream_id) {
                let ghost before = out@.map_values(|s: &ItemRow| *s);
                out.push(&self.items[i]);
                assert(out@.map_values(|s: &ItemRow| *s) =~= before.push(all[i as int]));
            }
            i = i + 1;
        }
        assert(all.take(i as int) =~= all);
        out
    }

    /// The open contradictions of a workstream, in order.
    pub fn open_conflicts_for_workstream(&self, workstream_id: &str) -> (r: Vec<&ContextConflict>)
        ensures
            r@.map_values(|s: &ContextConflict| *s) == open_conflicts_of(
                self.conflicts@,
                workstream_id@,
            ),
    {
        let ghost all = self.conflicts@;
        let ghost wanted = |c: ContextConflict| c.workstream_id@ == workstream_id@ && c.open;
        let mut out: Vec<&ContextConflict> = Vec::new();
        let mut i: usize = 0;
        proof {
            reveal(Seq::filter);
        }
        assert(all.take(0) =~= Seq::<ContextConflict>::empty());
        assert(out@.map_values(|s: &ContextConflict| *s) =~= all.take(0).filter(wanted));
        while i < self.conflicts.len()
            invariant
                i <= self.conflicts@.len(),
                all == self.conflicts@,
                wanted == (|c: ContextConflict| c.workstream_id@ == workstream_id@ && c.open),
                out@.map_values(|s: &ContextConflict| *s) == all.take(i as int).filter(wanted),
            decreases self.conflicts@.len() - i,
        {
            proof {
                reveal(Seq::filter);
            }
            assert(all.take(i + 1).drop_last() =~= all.take(i as int));
            assert(all.take(i + 1).last() == all[i as int]);
            if self.conflicts[i].open && same(
                self.conflicts[i].workstream_id.as_str(),
                workstream_id,
            ) {
                let ghost before = out@.map_values(|s: &ContextConflict| *s);
                out.push(&self.conflicts[i]);
                assert(out@.map_values(|s: &ContextConflict| *s) =~= before.push(all[i as int]));
            }
            i = i + 1;
        }
        assert(all.take(i as int) =~= all);
        out
    }

    /// How many contradictions of a workstream are open.
    pub fn open_conflict_count(&self, workstream_id: &str) -> (r: usize)
        ensures
            r == open_conflicts(self.conflicts@, workstream_id@),
    {
        let ghost all = self.conflicts@;
        let ghost wanted = |c: ContextConflict| c.workstream_id@ == workstream_id@ && c.open;
        let mut n: usize = 0;
        let mut i: usize = 0;
        proof {
            reveal(Seq::filter);
        }
        assert(all.take(0) =~= Seq::<ContextConflict>::empty());
        while i < self.conflicts.len()
            invariant
                i <= self.conflicts@.len(),
                n <= i,
                all == self.conflicts@,
                wanted == (|c: ContextConflict| c.workstream_id@ == workstream_id@ && c.open),
                n == all.take(i as int).filter(wanted).len(),
            decreases self.conflicts@.len() - i,
        {
            proof {
                reveal(Seq::filter);
            }
            assert(all.take(i + 1).drop_last() =~= all.take(i as int));
            assert(all.take(i + 1).last() == all[i as int]);
            if self.conflicts[i].open && same(
                self.conflicts[i].workstream_id.as_str(),
                workstream_id,
            ) {
                n = n + 1;
            }
            i = i + 1;
        }
        assert(all.take(i as int) =~= all);
        n
    }
}

// ---------------------------------------------------------------------------
// Writing
// ---------------------------------------------------------------------------

/// Writing over the last row with a key is an insertion.
proof fn context_replaced(rows: Seq<ContextRow>, i: int, row: ContextRow)
    requires
        0 <= i < rows.len(),
        rows[i].session_id == row.session_id,
        forall|j: int| i < j < rows.len() ==> (#[trigger] rows[j]).session_id != row.session_id,
    ensures
        contexts_in(rows.update(i, row)) == contexts_in(rows).insert(row.session_id, row),
    decreases rows.len(),
{
    let changed = rows.update(i, row);
    if i == rows.len() - 1 {
        assert(changed.drop_last() =~= rows.drop_last());
    } else {
        context_replaced(rows.drop_last(), i, row);
        assert(changed.drop_last() =~= rows.drop_last().update(i, row));
        assert(changed.last() == rows.last());
    }
    assert(contexts_in(changed) =~= contexts_in(rows).insert(row.session_id, row));
}

/// Writing over the last row with a key is an insertion.
proof fn frontier_replaced(
    rows: Seq<WorkstreamSessionFrontier>,
    i: int,
    row: WorkstreamSessionFrontier,
)
    requires
        0 <= i < rows.len(),
        frontier_key(rows[i]) == frontier_key(row),
        forall|j: int|
            i < j < rows.len() ==> frontier_key(#[trigger] rows[j]) != frontier_key(row),
    ensures
        frontiers_in(rows.update(i, row)) == frontiers_in(rows).insert(
            frontier_key(row),
            row.deep_view(),
        ),
    decreases rows.len(),
{
    let changed = rows.update(i, row);
    if i == rows.len() - 1 {
        assert(changed.drop_last() =~= rows.drop_last());
    } else {
        frontier_replaced(rows.drop_last(), i, row);
        assert(changed.drop_last() =~= rows.drop_last().update(i, row));
        assert(changed.last() == rows.last());
    }
    assert(frontiers_in(changed) =~= frontiers_in(rows).insert(
            frontier_key(row),
            row.deep_view(),
        ));
}

/// Writing over the last row with a key is an insertion.
proof fn state_replaced(rows: Seq<WorkstreamContextState>, i: int, row: WorkstreamContextState)
    requires
        0 <= i < rows.len(),
        rows[i].workstream_id@ == row.workstream_id@,
        forall|j: int|
            i < j < rows.len() ==> (#[trigger] rows[j]).workstream_id@ != row.workstream_id@,
    ensures
        states_in(rows.update(i, row)) == states_in(rows).insert(
            row.workstream_id@,
            row.deep_view(),
        ),
    decreases rows.len(),
{
    let changed = rows.update(i, row);
    if i == rows.len() - 1 {
        assert(changed.drop_last() =~= rows.drop_last());
    } else {
        state_replaced(rows.drop_last(), i, row);
        assert(changed.drop_last() =~= rows.drop_last().update(i, row));
        assert(changed.last() == rows.last());
    }
    assert(states_in(changed) =~= states_in(rows).insert(row.workstream_id@, row.deep_view()));
}

/// Writes the summary of a session.
pub fn put_context(rows: &mut Vec<SessionContextRecord>, row: SessionContextRecord)
    ensures
        contexts_in(final(rows).deep_view()) == contexts_in(old(rows).deep_view()).insert(
            row.session_id@,
            row.deep_view(),
        ),
{
    let ghost all = rows.deep_view();
    let ghost view = row.deep_view();
    let mut i: usize = rows.len();
    while i > 0
        invariant
            i <= rows@.len(),
            *rows == *old(rows),
            all == rows.deep_view(),
            view == row.deep_view(),
            forall|j: int|
                i <= j < rows@.len() ==> (#[trigger] all[j]).session_id != view.session_id,
        decreases i,
    {
        i = i - 1;
        assert(all[i as int] == rows@[i as int].deep_view());
        if same(rows[i].session_id.as_str(), row.session_id.as_str()) {
            proof {
                context_replaced(all, i as int, view);
            }
            rows.set(i, row);
            assert(rows.deep_view() =~= all.update(i as int, view));
            return ;
        }
    }
    rows.push(row);
    assert(rows.deep_view() =~= all.push(view));
    assert(all.push(view).drop_last() =~= all);
}

/// Writes a frontier.
pub fn put_frontier(rows: &mut Vec<WorkstreamSessionFrontier>, row: WorkstreamSessionFrontier)
    ensures
        frontiers_in(final(rows)@) == frontiers_in(old(rows)@).insert(
            frontier_key(row),
            row.deep_view(),
        ),
{
    let ghost all = rows@;
    let mut i: usize = rows.len();
    while i > 0
        invariant
            i <= rows@.len(),
            *rows == *old(rows),
            all == rows@,
            forall|j: int|
                i <= j < rows@.len() ==> frontier_key(#[trigger] all[j]) != frontier_key(row),
        decreases i,
    {
        i = i - 1;
        if same(rows[i].workstream_id.as_str(), row.workstream_id.as_str()) && same(
            rows[i].session_id.as_str(),
            row.session_id.as_str(),
        ) {
            proof {
                frontier_replaced(all, i as int, row);
            }
            rows.set(i, row);
            return ;
        }
    }
    rows.push(row);
    assert(all.push(row).drop_last() =~= all);
}

/// Writes the revisions of a workstream.
pub fn put_state(rows: &mut Vec<WorkstreamContextState>, row: WorkstreamContextState)
    ensures
        states_in(final(rows)@) == states_in(old(rows)@).insert(
            row.workstream_id@,
            row.deep_view(),
        ),
{
    let ghost all = rows@;
    let mut i: usize = rows.len();
    while i > 0
        invariant
            i <= rows@.len(),
            *rows == *old(rows),
            all == rows@,
            forall|j: int|
                i <= j < rows@.len() ==> (#[trigger] all[j]).workstream_id@
                    != row.workstream_id@,
        decreases i,
    {
        i = i - 1;
        if same(rows[i].workstream_id.as_str(), row.workstream_id.as_str()) {
            proof {
                state_replaced(all, i as int, row);
            }
            rows.set(i, row);
            return ;
        }
    }
    rows.push(row);
    assert(all.push(row).drop_last() =~= all);
}

/// Whether some session with an id belongs to a workstream.
pub open spec fn member_of_workstream(
    sessions: Seq<Session>,
    workstream: Seq<char>,
    session: Seq<char>,
) -> bool {
    exists|i: int|
        0 <= i < sessions.len() && (#[trigger] sessions[i]).id@ == session && owned_by(
            sessions[i],
            workstream,
        )
}

/// The frontiers of a workstream that go: those of sessions that are not its own.
pub open spec fn unowned(sessions: Seq<Session>, workstream: Seq<char>) -> Set<
    (Seq<char>, Seq<char>),
> {
    Set::new(
        |k: (Seq<char>, Seq<char>)|
            k.0 == workstream && !member_of_workstream(sessions, workstream, k.1),
    )
}

fn is_member_of_workstream(sessions: &Vec<Session>, workstream_id: &str, session_id: &str) -> (r:
    bool)
    ensures
        r == member_of_workstream(sessions@, workstream_id@, session_id@),
{
    let mut i: usize = 0;
    while i < sessions.len()
        invariant
            i <= sessions@.len(),
            forall|j: int|
                0 <= j < i ==> !((#[trigger] sessions@[j]).id@ == session_id@ && owned_by(
                    sessions@[j],
                    workstream_id@,
                )),
        decreases sessions@.len() - i,
    {
        let owned: bool = match &sessions[i].owner_workstream_id {
            Some(w) => same(w.as_str(), workstream_id),
            None => false,
        };
        if owned && same(sessions[i].id.as_str(), session_id) {
            assert(sessions@[i as int].id@ == session_id@ && owned_by(
                sessions@[i as int],
                workstream_id@,
            ));
            return true;
        }
        i = i + 1;
    }
    false
}

impl Store {
    /// Takes away the frontiers of a workstream whose sessions are not its own.
    pub fn delete_unowned_workstream_frontiers(&mut self, workstream_id: &str)
        ensures
            final(self).taken_in() == old(self).taken_in().remove_keys(
                unowned(old(self).sessions@, workstream_id@),
            ),
            *final(self) == (Store { frontiers: final(self).frontiers, ..*old(self) }),
    {
        let ghost all = self.frontiers@;
        let ghost gone = unowned(self.sessions@, workstream_id@);
        let mut kept: Vec<WorkstreamSessionFrontier> = Vec::new();
        let mut i: usize = 0;
        assert(all.take(0) =~= Seq::<WorkstreamSessionFrontier>::empty());
        assert(frontiers_in(kept@) =~= frontiers_in(all.take(0)).remove_keys(gone));
        while i < self.frontiers.len()
            invariant
                i <= self.frontiers@.len(),
                *self == *old(self),
                all == self.frontiers@,
                gone == unowned(self.sessions@, workstream_id@),
                frontiers_in(kept@) == frontiers_in(all.take(i as int)).remove_keys(gone),
            decreases self.frontiers@.len() - i,
        {
            assert(all.take(i + 1).drop_last() =~= all.take(i as int));
            assert(all.take(i + 1).last() == all[i as int]);
            let ghost key = frontier_key(all[i as int]);
            let ours: bool = same(self.frontiers[i].workstream_id.as_str(), workstream_id);
            if !ours || is_member_of_workstream(
                &self.sessions,
                workstream_id,
                self.frontiers[i].session_id.as_str(),
            ) {
                assert(!gone.contains(key));
                let ghost before = kept@;
                kept.push(self.frontiers[i].copy());
                assert(kept@.drop_last() =~= before);
                assert(frontiers_in(kept@) =~= frontiers_in(all.take(i + 1)).remove_keys(gone));
            } else {
                assert(gone.contains(key));
                assert(frontiers_in(kept@) =~= frontiers_in(all.take(i + 1)).remove_keys(gone));
            }
            i = i + 1;
        }
        assert(all.take(i as int) =~= all);
        self.frontiers = kept;
    }

    /// Writes a new summary of a session, one revision on.
    pub fn commit_session_context(
        &mut self,
        session_id: &str,
        fields: &SessionContextFields,
        revision: i64,
        generation: i64,
        through: i64,
        now: &str,
    ) -> (r: i64)
        requires
            revision < i64::MAX,
        ensures
            r == revision + 1,
            final(self).summaries() == old(self).summaries().insert(
                session_id@,
                ContextRow {
                    session_id: session_id@,
                    fields: fields.deep_view(),
                    revision: r,
                    ingest_generation: generation,
                    processed_through_seq: through,
                    updated_at: now@,
                },
            ),
            *final(self) == (Store { contexts: final(self).contexts, ..*old(self) }),
    {
        let next: i64 = revision + 1;
        let row = SessionContextRecord {
            session_id: session_id.to_owned(),
            fields: fields.copy(),
            revision: next,
            ingest_generation: generation,
            processed_through_seq: through,
            updated_at: now.to_owned(),
        };
        put_context(&mut self.contexts, row);
        next
    }

    /// Writes what a workstream has taken in of a session.
    pub fn set_workstream_frontier(&mut self, frontier: WorkstreamSessionFrontier)
        ensures
            final(self).taken_in() == old(self).taken_in().insert(
                frontier_key(frontier),
                frontier.deep_view(),
            ),
            *final(self) == (Store { frontiers: final(self).frontiers, ..*old(self) }),
    {
        put_frontier(&mut self.frontiers, frontier);
    }

    /// Moves a workstream's context on by one revision and marks all that people put in as taken
    /// in.
    pub fn advance_workstream(&mut self, workstream_id: &str) -> (r: i64)
        requires
            old(self).revisions(workstream_id@).context < i64::MAX,
        ensures
            r == old(self).revisions(workstream_id@).context + 1,
            forall|w: Seq<char>|
                #![trigger final(self).revisions(w)]
                final(self).revisions(w) == if w == workstream_id@ {
                    Revisions {
                        context: r,
                        input: old(self).revisions(w).input,
                        consumed_input: old(self).revisions(w).input,
                    }
                } else {
                    old(self).revisions(w)
                },
            *final(self) == (Store { states: final(self).states, ..*old(self) }),
    {
        let state = self.get_workstream_context_state(workstream_id);
        let next: i64 = state.context_revision + 1;
        put_state(
            &mut self.states,
            WorkstreamContextState {
                workstream_id: workstream_id.to_owned(),
                context_revision: next,
                input_revision: state.input_revision,
                consumed_input_revision: state.input_revision,
            },
        );
        next
    }
}

// ---------------------------------------------------------------------------
// Laws
// ---------------------------------------------------------------------------

/// A choice from rows holds exactly the rows that are wanted.
pub broadcast proof fn a_choice_holds_what_is_wanted<A>(
    rows: Seq<A>,
    wanted: spec_fn(A) -> bool,
    row: A,
)
    ensures
        #[trigger] rows.filter(wanted).contains(row) <==> rows.contains(row) && wanted(row),
{
    if rows.contains(row) && wanted(row) {
        let i = choose|i: int| 0 <= i < rows.len() && rows[i] == row;
        rows.lemma_filter_contains(wanted, i);
    }
    if rows.filter(wanted).contains(row) {
        let i = choose|i: int| 0 <= i < rows.filter(wanted).len() && rows.filter(wanted)[i] == row;
        rows.lemma_filter_pred(wanted, i);
        rows.lemma_filter_contains_rev(wanted, row);
    }
}

/// The messages that are read of a session are its own and no others, and messages that are
/// stored later come last.
pub proof fn messages_of_a_session_are_its_own(
    rows: Seq<SessionMessage>,
    more: Seq<SessionMessage>,
    session: Seq<char>,
    row: SessionMessage,
)
    ensures
        messages_of(rows, session).contains(row) <==> rows.contains(row) && row.session_id@
            == session,
        messages_of(rows + more, session) == messages_of(rows, session) + messages_of(
            more,
            session,
        ),
        messages_of(seq![row], session) == (if row.session_id@ == session {
            seq![row]
        } else {
            Seq::empty()
        }),
{
    broadcast use {
        a_choice_holds_what_is_wanted,
        Seq::filter_distributes_over_add,
        Seq::lemma_filter_len,
    };

    reveal_with_fuel(Seq::filter, 2);
    assert(seq![row].drop_last() =~= Seq::<SessionMessage>::empty());
    assert(messages_of(seq![row], session) =~= (if row.session_id@ == session {
        seq![row]
    } else {
        Seq::empty()
    }));
}

/// The messages behind a place are those of the session with a later number, and messages that
/// are stored later come last.
pub proof fn messages_behind_a_place_are_later(
    rows: Seq<SessionMessage>,
    more: Seq<SessionMessage>,
    session: Seq<char>,
    after: int,
    row: SessionMessage,
)
    ensures
        messages_behind(rows, session, after).contains(row) <==> rows.contains(row)
            && row.session_id@ == session && row.sequence > after,
        messages_behind(rows + more, session, after) == messages_behind(rows, session, after)
            + messages_behind(more, session, after),
        messages_behind(seq![row], session, after) == (if row.session_id@ == session && row.sequence
            > after {
            seq![row]
        } else {
            Seq::empty()
        }),
{
    broadcast use {
        a_choice_holds_what_is_wanted,
        Seq::filter_distributes_over_add,
        Seq::lemma_filter_len,
    };

    reveal_with_fuel(Seq::filter, 2);
    assert(seq![row].drop_last() =~= Seq::<SessionMessage>::empty());
    assert(messages_behind(seq![row], session, after) =~= (if row.session_id@ == session
        && row.sequence > after {
        seq![row]
    } else {
        Seq::empty()
    }));
}

/// Of messages that are too many the first are kept, so many as there may be.
pub proof fn the_first_messages_are_kept(rows: Seq<SessionMessage>, limit: nat)
    ensures
        at_most(rows, limit).is_prefix_of(rows),
        rows.len() <= limit ==> at_most(rows, limit).len() == rows.len(),
        rows.len() > limit ==> at_most(rows, limit).len() == limit,
        message_ids(rows).len() == rows.len(),
        forall|i: int| 0 <= i < rows.len() ==> #[trigger] message_ids(rows)[i] == rows[i].id@,
{
}

/// The sessions of a workstream are those that it owns and that are not in the trash.
pub proof fn sessions_of_a_workstream_are_owned(
    rows: Seq<Session>,
    more: Seq<Session>,
    workstream: Seq<char>,
    row: Session,
)
    ensures
        sessions_of(rows, workstream).contains(row) <==> rows.contains(row) && (
        row.owner_workstream_id matches Some(w) && w@ == workstream) && row.trashed_at is None,
        sessions_of(rows + more, workstream) == sessions_of(rows, workstream) + sessions_of(
            more,
            workstream,
        ),
        sessions_of(seq![row], workstream).len() <= 1,
{
    broadcast use {
        a_choice_holds_what_is_wanted,
        Seq::filter_distributes_over_add,
        Seq::lemma_filter_len,
    };

}

/// A frontier goes exactly where its workstream is the one that is cleaned and does not own its
/// session, in the trash or not.
pub proof fn only_foreign_frontiers_go(
    sessions: Seq<Session>,
    workstream: Seq<char>,
    other: Seq<char>,
    session: Seq<char>,
)
    ensures
        unowned(sessions, workstream).contains((other, session)) <==> other == workstream && (
        forall|i: int|
            0 <= i < sessions.len() && (#[trigger] sessions[i]).id@ == session ==> !(
            sessions[i].owner_workstream_id matches Some(w) && w@ == workstream)),
{
    if member_of_workstream(sessions, workstream, session) {
        let i = choose|i: int|
            0 <= i < sessions.len() && (#[trigger] sessions[i]).id@ == session && owned_by(
                sessions[i],
                workstream,
            );
        assert(sessions[i].id@ == session);
    }
}

/// The items in force of a workstream are its own items with that status, and the items of a
/// workstream are all of its own.
pub proof fn items_of_a_workstream_are_its_own(
    rows: Seq<ItemRow>,
    more: Seq<ItemRow>,
    workstream: Seq<char>,
    row: ItemRow,
)
    ensures
        items_of(rows, workstream).contains(row) <==> rows.contains(row) && row.item.workstream_id@
            == workstream && row.item.status@ == "active"@,
        all_items_of(rows, workstream).contains(row) <==> rows.contains(row)
            && row.item.workstream_id@ == workstream,
        items_of(rows + more, workstream) == items_of(rows, workstream) + items_of(
            more,
            workstream,
        ),
        all_items_of(rows + more, workstream) == all_items_of(rows, workstream) + all_items_of(
            more,
            workstream,
        ),
        items_of(seq![row], workstream).len() <= 1,
        all_items_of(seq![row], workstream).len() <= 1,
{
    broadcast use {
        a_choice_holds_what_is_wanted,
        Seq::filter_distributes_over_add,
        Seq::lemma_filter_len,
    };

}

/// The open contradictions of a workstream are its own that are open, and as many are counted.
pub proof fn open_conflicts_are_its_own(
    rows: Seq<ContextConflict>,
    more: Seq<ContextConflict>,
    workstream: Seq<char>,
    row: ContextConflict,
)
    ensures
        open_conflicts_of(rows, workstream).contains(row) <==> rows.contains(row)
            && row.workstream_id@ == workstream && row.open,
        open_conflicts_of(rows + more, workstream) == open_conflicts_of(rows, workstream)
            + open_conflicts_of(more, workstream),
        open_conflicts_of(seq![row], workstream).len() <= 1,
        open_conflicts(rows, workstream) == open_conflicts_of(rows, workstream).len(),
{
    broadcast use {
        a_choice_holds_what_is_wanted,
        Seq::filter_distributes_over_add,
        Seq::lemma_filter_len,
    };

}

/// The workstream with an id is the first row of that id; none is found exactly where no row has
/// it.
pub proof fn the_first_workstream_is_found(rows: Seq<Workstream>, id: Seq<char>)
    ensures
        match workstream_in(rows, id) {
            Some(w) => w.id@ == id && exists|i: int|
                0 <= i < rows.len() && #[trigger] rows[i] == w && forall|j: int|
                    0 <= j < i ==> (#[trigger] rows[j]).id@ != id,
            None => forall|i: int| 0 <= i < rows.len() ==> (#[trigger] rows[i]).id@ != id,
        },
    decreases rows.len(),
{
    if rows.len() > 0 && rows[0].id@ != id {
        let rest = rows.drop_first();
        the_first_workstream_is_found(rest, id);
        assert(forall|i: int| 0 < i < rows.len() ==> #[trigger] rows[i] == rest[i - 1]);
        match workstream_in(rest, id) {
            Some(w) => {
                let i = choose|i: int|
                    0 <= i < rest.len() && #[trigger] rest[i] == w && forall|j: int|
                        0 <= j < i ==> (#[trigger] rest[j]).id@ != id;
                assert(rows[i + 1] == w);
                assert forall|j: int| 0 <= j < i + 1 implies (#[trigger] rows[j]).id@ != id by {
                    if j > 0 {
                        assert(rest[j - 1].id@ != id);
                    }
                }
            },
            None => {},
        }
    } else if rows.len() > 0 {
        assert(rows[0] == workstream_in(rows, id)->0);
    }
}

/// The session with an id is the first row of that id.
pub proof fn the_first_session_is_found(rows: Seq<Session>, id: Seq<char>)
    ensures
        match session_in(rows, id) {
            Some(s) => s.id@ == id && exists|i: int|
                0 <= i < rows.len() && #[trigger] rows[i] == s && forall|j: int|
                    0 <= j < i ==> (#[trigger] rows[j]).id@ != id,
            None => forall|i: int| 0 <= i < rows.len() ==> (#[trigger] rows[i]).id@ != id,
        },
    decreases rows.len(),
{
    if rows.len() > 0 && rows[0].id@ != id {
        let rest = rows.drop_first();
        the_first_session_is_found(rest, id);
        assert(forall|i: int| 0 < i < rows.len() ==> #[trigger] rows[i] == rest[i - 1]);
        match session_in(rest, id) {
            Some(s) => {
                let i = choose|i: int|
                    0 <= i < rest.len() && #[trigger] rest[i] == s && forall|j: int|
                        0 <= j < i ==> (#[trigger] rest[j]).id@ != id;
                assert(rows[i + 1] == s);
                assert forall|j: int| 0 <= j < i + 1 implies (#[trigger] rows[j]).id@ != id by {
                    if j > 0 {
                        assert(rest[j - 1].id@ != id);
                    }
                }
            },
            None => {},
        }
    } else if rows.len() > 0 {
        assert(rows[0] == session_in(rows, id)->0);
    }
}

/// The item with an id is the first row of that id, and stands at its place.
pub proof fn the_first_item_is_found(rows: Seq<ItemRow>, id: Seq<char>)
    ensures
        match item_place(rows, id) {
            Some(i) => 0 <= i < rows.len() && rows[i].item.id@ == id && item_in(rows, id) == Some(
                rows[i],
            ) && forall|j: int| 0 <= j < i ==> (#[trigger] rows[j]).item.id@ != id,
            None => item_in(rows, id) is None && forall|i: int|
                0 <= i < rows.len() ==> (#[trigger] rows[i]).item.id@ != id,
        },
    decreases rows.len(),
{
    if rows.len() > 0 && rows[0].item.id@ != id {
        let rest = rows.drop_first();
        the_first_item_is_found(rest, id);
        assert forall|i: int|
            0 <= i < rows.len() && (item_place(rows, id) matches Some(k) ==> i < k) implies (
        #[trigger] rows[i]).item.id@ != id by {
            if i > 0 {
                assert(rest[i - 1].item.id@ != id);
            }
        }
    }
}

/// The summary that counts for a session is the last row of that session; there is none exactly
/// where no row is of it.
pub proof fn the_last_summary_counts(rows: Seq<ContextRow>, session: Seq<char>)
    ensures
        contexts_in(rows).contains_key(session) <==> exists|i: int|
            0 <= i < rows.len() && (#[trigger] rows[i]).session_id == session,
        contexts_in(rows).contains_key(session) ==> exists|i: int|
            0 <= i < rows.len() && #[trigger] rows[i] == contexts_in(rows)[session]
                && rows[i].session_id == session && forall|j: int|
                i < j < rows.len() ==> (#[trigger] rows[j]).session_id != session,
    decreases rows.len(),
{
    if rows.len() > 0 {
        let front = rows.drop_last();
        let last = rows.len() - 1;
        the_last_summary_counts(front, session);
        assert(forall|i: int| 0 <= i < last ==> #[trigger] rows[i] == front[i]);
        if rows[last].session_id == session {
            assert(rows[last] == contexts_in(rows)[session]);
        } else if contexts_in(front).contains_key(session) {
            let i = choose|i: int|
                0 <= i < front.len() && #[trigger] front[i] == contexts_in(front)[session]
                    && front[i].session_id == session && forall|j: int|
                    i < j < front.len() ==> (#[trigger] front[j]).session_id != session;
            assert(rows[i] == contexts_in(rows)[session]);
        }
    }
}

/// What a workstream has taken in of a session is what the last row of the two says.
pub proof fn the_last_frontier_counts(
    rows: Seq<WorkstreamSessionFrontier>,
    workstream: Seq<char>,
    session: Seq<char>,
)
    ensures
        frontiers_in(rows).contains_key((workstream, session)) <==> exists|i: int|
            0 <= i < rows.len() && (#[trigger] rows[i]).workstream_id@ == workstream
                && rows[i].session_id@ == session,
        frontiers_in(rows).contains_key((workstream, session)) ==> exists|i: int|
            0 <= i < rows.len() && (#[trigger] rows[i]).workstream_id@ == workstream
                && rows[i].session_id@ == session && ({
                let taken = frontiers_in(rows)[(workstream, session)];
                &&& taken.session_context_revision == rows[i].session_context_revision
                &&& taken.ingest_generation == rows[i].ingest_generation
                &&& taken.consumed_through_seq == rows[i].consumed_through_seq
            }) && forall|j: int|
                i < j < rows.len() ==> !((#[trigger] rows[j]).workstream_id@ == workstream
                    && rows[j].session_id@ == session),
    decreases rows.len(),
{
    if rows.len() > 0 {
        let front = rows.drop_last();
        let last = rows.len() - 1;
        let key = (workstream, session);
        the_last_frontier_counts(front, workstream, session);
        assert(forall|i: int| 0 <= i < last ==> #[trigger] rows[i] == front[i]);
        if rows[last].workstream_id@ == workstream && rows[last].session_id@ == session {
            assert(frontiers_in(rows)[key] == rows[last].deep_view());
        } else if frontiers_in(front).contains_key(key) {
            let i = choose|i: int|
                0 <= i < front.len() && (#[trigger] front[i]).workstream_id@ == workstream
                    && front[i].session_id@ == session && ({
                    let taken = frontiers_in(front)[key];
                    &&& taken.session_context_revision == front[i].session_context_revision
                    &&& taken.ingest_generation == front[i].ingest_generation
                    &&& taken.consumed_through_seq == front[i].consumed_through_seq
                }) && forall|j: int|
                    i < j < front.len() ==> !((#[trigger] front[j]).workstream_id@ == workstream
                        && front[j].session_id@ == session);
            assert(rows[i].workstream_id@ == workstream);
            assert(frontiers_in(rows)[key] == frontiers_in(front)[key]);
        }
    }
}

/// The revisions of a workstream are those of its last row, and zero where it has none.
pub proof fn the_last_state_counts(store: Store, workstream: Seq<char>, i: int)
    requires
        0 <= i < store.states@.len(),
        store.states@[i].workstream_id@ == workstream,
        forall|j: int|
            i < j < store.states@.len() ==> (#[trigger] store.states@[j]).workstream_id@
                != workstream,
    ensures
        store.revisions(workstream).context == store.states@[i].context_revision,
        store.revisions(workstream).input == store.states@[i].input_revision,
        store.revisions(workstream).consumed_input == store.states@[i].consumed_input_revision,
{
    last_state(store.states@, workstream, i);
}

proof fn last_state(rows: Seq<WorkstreamContextState>, workstream: Seq<char>, i: int)
    requires
        0 <= i < rows.len(),
        rows[i].workstream_id@ == workstream,
        forall|j: int| i < j < rows.len() ==> (#[trigger] rows[j]).workstream_id@ != workstream,
    ensures
        states_in(rows).contains_key(workstream),
        states_in(rows)[workstream] == rows[i].deep_view(),
    decreases rows.len(),
{
    if i < rows.len() - 1 {
        assert(rows[rows.len() - 1].workstream_id@ != workstream);
        last_state(rows.drop_last(), workstream, i);
    }
}

/// A workstream without a row has revisions of zero.
pub proof fn an_unknown_workstream_has_no_revisions(store: Store, workstream: Seq<char>)
    requires
        forall|j: int|
            0 <= j < store.states@.len() ==> (#[trigger] store.states@[j]).workstream_id@
                != workstream,
    ensures
        store.revisions(workstream).context == 0,
        store.revisions(workstream).input == 0,
        store.revisions(workstream).consumed_input == 0,
{
    no_state(store.states@, workstream);
}

proof fn no_state(rows: Seq<WorkstreamContextState>, workstream: Seq<char>)
    requires
        forall|j: int| 0 <= j < rows.len() ==> (#[trigger] rows[j]).workstream_id@ != workstream,
    ensures
        !states_in(rows).contains_key(workstream),
    decreases rows.len(),
{
    if rows.len() > 0 {
        assert(rows[rows.len() - 1].workstream_id@ != workstream);
        no_state(rows.drop_last(), workstream);
    }
}

/// How far a session has been read is what its last row says.
pub proof fn the_last_reading_counts(store: Store, session: Seq<char>, i: int)
    requires
        0 <= i < store.ingest@.len(),
        store.ingest@[i].session_id@ == session,
        forall|j: int|
            i < j < store.ingest@.len() ==> (#[trigger] store.ingest@[j]).session_id@ != session,
    ensures
        store.reading(session).0 == store.ingest@[i].generation,
        store.reading(session).1 == store.ingest@[i].latest_message_seq,
{
    last_reading(store.ingest@, session, i);
}

proof fn last_reading(rows: Seq<SessionIngestState>, session: Seq<char>, i: int)
    requires
        0 <= i < rows.len(),
        rows[i].session_id@ == session,
        forall|j: int| i < j < rows.len() ==> (#[trigger] rows[j]).session_id@ != session,
    ensures
        ingest_in(rows).contains_key(session),
        ingest_in(rows)[session] == (rows[i].generation, rows[i].latest_message_seq),
    decreases rows.len(),
{
    if i < rows.len() - 1 {
        assert(rows[rows.len() - 1].session_id@ != session);
        last_reading(rows.drop_last(), session, i);
    }
}

/// A session that was never read has neither a generation nor messages.
pub proof fn an_unread_session_has_no_reading(store: Store, session: Seq<char>)
    requires
        forall|j: int|
            0 <= j < store.ingest@.len() ==> (#[trigger] store.ingest@[j]).session_id@ != session,
    ensures
        store.reading(session) == (0i64, 0i64),
{
    no_reading(store.ingest@, session);
}

proof fn no_reading(rows: Seq<SessionIngestState>, session: Seq<char>)
    requires
        forall|j: int| 0 <= j < rows.len() ==> (#[trigger] rows[j]).session_id@ != session,
    ensures
        !ingest_in(rows).contains_key(session),
    decreases rows.len(),
{
    if rows.len() > 0 {
        assert(rows[rows.len() - 1].session_id@ != session);
        no_reading(rows.drop_last(), session);
    }
}

/// A stored summary is shown with all that it says: every field of it, how often it was written
/// and which messages it covers.
pub proof fn a_stored_summary_is_seen_whole(c: SessionContextRecord)
    ensures
        c.deep_view().session_id == c.session_id@,
        c.deep_view().fields.summary_current_state == c.fields.summary_current_state@,
        c.deep_view().fields.decisions.len() == c.fields.decisions@.len(),
        c.deep_view().fields.open_questions.len() == c.fields.open_questions@.len(),
        c.deep_view().fields.next_steps.len() == c.fields.next_steps@.len(),
        forall|i: int|
            0 <= i < c.fields.decisions@.len() ==> #[trigger] c.deep_view().fields.decisions[i]
                == c.fields.decisions@[i]@,
        forall|i: int|
            0 <= i < c.fields.open_questions@.len()
                ==> #[trigger] c.deep_view().fields.open_questions[i]
                == c.fields.open_questions@[i]@,
        forall|i: int|
            0 <= i < c.fields.next_steps@.len() ==> #[trigger] c.deep_view().fields.next_steps[i]
                == c.fields.next_steps@[i]@,
        c.deep_view().revision == c.revision,
        c.deep_view().ingest_generation == c.ingest_generation,
        c.deep_view().processed_through_seq == c.processed_through_seq,
        c.deep_view().updated_at == c.updated_at@,
{
}

/// A summary that says nothing has neither a state nor decisions, questions or steps.
pub proof fn a_blank_summary_says_nothing()
    ensures
        Fields::blank().summary_current_state.len() == 0,
        Fields::blank().decisions.len() == 0,
        Fields::blank().open_questions.len() == 0,
        Fields::blank().next_steps.len() == 0,
{
}

} // verus!
