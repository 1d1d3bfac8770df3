//! Which sessions an update of a workstream takes in, and how.
//!
//! A session with messages that the workstream has not seen is a target: the model reads them and
//! writes its summary anew. A session whose summary moved on, or whose conversation was replaced
//! by an empty one, only shows its summary.
use crate::context::views::{outdated, revision_of};
use crate::store::{
    at_most, messages_behind, sessions_of, ContextRow, Session, SessionContextRecord,
    SessionMessage, Store, Taken,
};
use vstd::prelude::*;

verus! {

/// How many messages are read at once.
pub const MESSAGE_LIMIT: usize = 1_000_000;

/// A session whose new messages are read.
pub struct TargetSession {
    pub session: Session,
    pub existing: Option<SessionContextRecord>,
    pub generation: i64,
    pub from: i64,
    pub messages: Vec<SessionMessage>,
}

/// A session whose new messages are read, as a mathematical value.
pub struct Target {
    pub session: Session,
    pub existing: Option<ContextRow>,
    pub generation: i64,
    pub from: i64,
    pub messages: Seq<SessionMessage>,
}

impl DeepView for TargetSession {
    type V = Target;

    open spec fn deep_view(&self) -> Target {
        Target {
            session: self.session,
            existing: self.existing.deep_view(),
            generation: self.generation,
            from: self.from,
            messages: self.messages@,
        }
    }
}

/// A session that only shows its summary.
pub struct ReadOnlySession {
    pub session_id: String,
    pub context: Option<SessionContextRecord>,
    pub generation: i64,
    pub latest_message_seq: i64,
    /// Whether the summary is of a conversation that is gone.
    pub invalidate_context: bool,
}

/// A session that only shows its summary, as a mathematical value.
pub struct Reader {
    pub session_id: Seq<char>,
    pub context: Option<ContextRow>,
    pub generation: i64,
    pub latest_message_seq: i64,
    pub invalidate_context: bool,
}

impl DeepView for ReadOnlySession {
    type V = Reader;

    open spec fn deep_view(&self) -> Reader {
        Reader {
            session_id: self.session_id@,
            context: self.context.deep_view(),
            generation: self.generation,
            latest_message_seq: self.latest_message_seq,
            invalidate_context: self.invalidate_context,
        }
    }
}

/// What a session is to an update.
pub enum Part {
    Target(Target),
    Reader(Reader),
    Nothing,
}

/// Whether a workstream has to take in a session from its beginning.
pub open spec fn starts_over(store: Store, workstream: Seq<char>, session: Seq<char>) -> bool {
    let (generation, latest) = store.reading(session);
    (match store.frontier(workstream, session) {
        Some(f) => f.ingest_generation != generation,
        None => latest > 0,
    }) || outdated(store.summary(session), generation)
}

/// Where a workstream goes on with a session.
pub open spec fn goes_on_from(store: Store, workstream: Seq<char>, session: Seq<char>) -> i64 {
    if starts_over(store, workstream, session) {
        0
    } else {
        match store.frontier(workstream, session) {
            Some(f) => f.consumed_through_seq,
            None => 0,
        }
    }
}

/// The messages of a session that a workstream has not seen.
pub open spec fn unseen(store: Store, workstream: Seq<char>, session: Seq<char>) -> Seq<
    SessionMessage,
> {
    at_most(
        messages_behind(
            store.messages@,
            session,
            goes_on_from(store, workstream, session) as int,
        ),
        MESSAGE_LIMIT as nat,
    )
}

/// The revision of a session's summary that a workstream has taken in.
pub open spec fn taken_revision(frontier: Option<Taken>) -> i64 {
    match frontier {
        Some(f) => f.session_context_revision,
        None => 0,
    }
}

/// What a session is to an update of a workstream.
pub open spec fn part_of(store: Store, workstream: Seq<char>, s: Session) -> Part {
    let context = store.summary(s.id@);
    let (generation, latest) = store.reading(s.id@);
    let messages = unseen(store, workstream, s.id@);
    if messages.len() > 0 {
        Part::Target(
            Target {
                session: s,
                existing: context,
                generation,
                from: goes_on_from(store, workstream, s.id@),
                messages,
            },
        )
    } else if starts_over(store, workstream, s.id@) {
        Part::Reader(
            Reader {
                session_id: s.id@,
                context,
                generation,
                latest_message_seq: latest,
                invalidate_context: true,
            },
        )
    } else if context is Some && revision_of(context) > taken_revision(
        store.frontier(workstream, s.id@),
    ) {
        Part::Reader(
            Reader {
                session_id: s.id@,
                context,
                generation,
                latest_message_seq: latest,
                invalidate_context: false,
            },
        )
    } else {
        Part::Nothing
    }
}

/// The sessions among some whose new messages are read, in order.
pub open spec fn targets_among(store: Store, workstream: Seq<char>, sessions: Seq<Session>) -> Seq<
    Target,
>
    decreases sessions.len(),
{
    if sessions.len() == 0 {
        Seq::empty()
    } else {
        let before = targets_among(store, workstream, sessions.drop_last());
        match part_of(store, workstream, sessions.last()) {
            Part::Target(t) => before.push(t),
            _ => before,
        }
    }
}

/// The sessions among some that only show their summary, in order.
pub open spec fn readers_among(store: Store, workstream: Seq<char>, sessions: Seq<Session>) -> Seq<
    Reader,
>
    decreases sessions.len(),
{
    if sessions.len() == 0 {
        Seq::empty()
    } else {
        let before = readers_among(store, workstream, sessions.drop_last());
        match part_of(store, workstream, sessions.last()) {
            Part::Reader(r) => before.push(r),
            _ => before,
        }
    }
}

/// The sessions of a workstream whose new messages are read.
pub open spec fn targets_of(store: Store, workstream: Seq<char>) -> Seq<Target> {
    targets_among(store, workstream, sessions_of(store.sessions@, workstream))
}

/// The sessions of a workstream that only show their summary.
pub open spec fn readers_of(store: Store, workstream: Seq<char>) -> Seq<Reader> {
    readers_among(store, workstream, sessions_of(store.sessions@, workstream))
}

/// What a session is to an update.
pub enum SessionPart {
    Target(TargetSession),
    Reader(ReadOnlySession),
    Nothing,
}

impl DeepView for SessionPart {
    type V = Part;

    open spec fn deep_view(&self) -> Part {
        match *self {
            SessionPart::Target(t) => Part::Target(t.deep_view()),
            SessionPart::Reader(r) => Part::Reader(r.deep_view()),
            SessionPart::Nothing => Part::Nothing,
        }
    }
}

/// What a session is to an update of a workstream.
pub fn session_part(store: &Store, workstream_id: &str, session: &Session) -> (r: SessionPart)
    ensures
        r.deep_view() == part_of(*store, workstream_id@, *session),
{
    let id: &str = session.id.as_str();
    let ingest = store.get_session_ingest_state(id);
    let existing: Option<SessionContextRecord> = match store.get_session_context(id) {
        Some(c) => Some(c.copy()),
        None => None,
    };
    let frontier = store.get_frontier(workstream_id, id);
    let is_outdated: bool = match &existing {
        Some(c) => c.ingest_generation != ingest.generation,
        None => false,
    };
    let over: bool = is_outdated || match frontier {
        Some(f) => f.ingest_generation != ingest.generation,
        None => ingest.latest_message_seq > 0,
    };
    let from: i64 = if over {
        0
    } else {
        match frontier {
            Some(f) => f.consumed_through_seq,
            None => 0,
        }
    };
    let messages = store.get_messages_after(id, from, MESSAGE_LIMIT);
    if messages.len() > 0 {
        return SessionPart::Target(
            TargetSession {
                session: session.copy(),
                existing,
                generation: ingest.generation,
                from,
                messages,
            },
        );
    }
    if over {
        return SessionPart::Reader(
            ReadOnlySession {
                session_id: session.id.clone(),
                context: existing,
                generation: ingest.generation,
                latest_message_seq: ingest.latest_message_seq,
                invalidate_context: true,
            },
        );
    }
    let taken: i64 = match frontier {
        Some(f) => f.session_context_revision,
        None => 0,
    };
    let moved_on: bool = match &existing {
        Some(c) => c.revision > taken,
        None => false,
    };
    if moved_on {
        SessionPart::Reader(
            ReadOnlySession {
                session_id: session.id.clone(),
                context: existing,
                generation: ingest.generation,
                latest_message_seq: ingest.latest_message_seq,
                invalidate_context: false,
            },
        )
    } else {
        SessionPart::Nothing
    }
}

/// The sessions of a workstream that an update takes in: those whose new messages are read, and
/// those that only show their summary.
pub fn affected_sessions(store: &Store, workstream_id: &str) -> (r: (
    Vec<TargetSession>,
    Vec<ReadOnlySession>,
))
    ensures
        r.0.deep_view() == targets_of(*store, workstream_id@),
        r.1.deep_view() == readers_of(*store, workstream_id@),
{
    let sessions = store.sessions_for_workstream(workstream_id);
    let ghost all = sessions_of(store.sessions@, workstream_id@);
    let mut targets: Vec<TargetSession> = Vec::new();
    let mut readers: Vec<ReadOnlySession> = Vec::new();
    let mut i: usize = 0;
    assert(all.take(0) =~= Seq::<Session>::empty());
    assert(targets.deep_view() =~= Seq::<Target>::empty());
    assert(readers.deep_view() =~= Seq::<Reader>::empty());
    while i < sessions.len()
        invariant
            i <= sessions@.len(),
            all == sessions@.map_values(|s: &Session| *s),
            targets.deep_view() == targets_among(*store, workstream_id@, all.take(i as int)),
            readers.deep_view() == readers_among(*store, workstream_id@, all.take(i as int)),
        decreases sessions@.len() - i,
    {
        assert(all.take(i + 1).drop_last() =~= all.take(i as int));
        assert(all.take(i + 1).last() == *sessions@[i as int]);
        let ghost before_targets = targets.deep_view();
        let ghost before_readers = readers.deep_view();
        match session_part(store, workstream_id, sessions[i]) {
            SessionPart::Target(t) => {
                targets.push(t);
                assert(targets.deep_view() =~= before_targets.push(t.deep_view()));
            },
            SessionPart::Reader(r) => {
                readers.push(r);
                assert(readers.deep_view() =~= before_readers.push(r.deep_view()));
            },
            SessionPart::Nothing => {},
        }
        i = i + 1;
    }
    assert(all.take(i as int) =~= all);
    (targets, readers)
}

} // verus!
