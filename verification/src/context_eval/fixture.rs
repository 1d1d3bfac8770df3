//! The state that a fixture starts with.
use crate::adapters::content::empty_object;
use crate::context_eval::corpus::{
    ContextQualityFixture, FixtureEvent, FixtureInitialItem, FixtureWorkstream,
};
use crate::domain::{
    Agent, Message, ParsedSessionMessage, SessionMemberRelation, SessionMessageRole,
    SourceCursorUpdate, SourceState,
};
use crate::error::{AppError, Fault};
use crate::json::Tree;
use crate::store::{
    ContextItem, ContextItemRevision, ItemRow, Session, SessionIngestState, SessionMessage, Store,
    Workstream,
};
use crate::sync::PromptMessageRef;
use crate::text::{
    same, signed_decimal, signed_decimal_of, small_letters, split, split_on, texts,
    to_small_letters,
};
use crate::time::random_id;
use vstd::prelude::*;

verus! {

/// The source that a fixture's conversation stands for.
pub struct FixtureMember {
    pub session_id: String,
    pub agent: Agent,
    pub source_member_id: String,
    pub relation: SessionMemberRelation,
    pub source_kind: String,
    pub source_path: String,
}

/// A message as it is taken in, with how far its source has then been read.
pub struct SeededMessage {
    pub message: ParsedSessionMessage,
    pub cursor: SourceCursorUpdate,
}

/// The rows, the session and the conversation of a fixture.
pub struct FixtureEnv {
    pub store: Store,
    pub session: Session,
    pub member: FixtureMember,
    pub seeded: Vec<SeededMessage>,
    pub session_messages: Vec<SessionMessage>,
    /// The first workstream of the fixture: a session has one owner.
    pub owner_workstream_id: String,
    pub ref_map: Vec<PromptMessageRef>,
}

// ---------------------------------------------------------------------------
// Rows
// ---------------------------------------------------------------------------

/// A workstream of a fixture, as a row.
pub open spec fn is_row_of(w: Workstream, f: FixtureWorkstream, now: Seq<char>) -> bool {
    &&& w.id@ == f.id@
    &&& w.title@ == f.title@
    &&& w.description@ == f.description@
    &&& w.lifecycle@ == "active"@
    &&& w.visibility@ == "normal"@
    &&& w.created_at@ == now
    &&& w.updated_at@ == now
}

/// Where the last workstream with an id stands.
pub open spec fn place_of(list: Seq<FixtureWorkstream>, id: Seq<char>) -> Option<int>
    decreases list.len(),
{
    if list.len() == 0 {
        None
    } else if list.last().id@ == id {
        Some(list.len() - 1)
    } else {
        place_of(list.drop_last(), id)
    }
}

/// The workstreams that are kept: one with an id that is there already takes its place.
pub open spec fn kept(list: Seq<FixtureWorkstream>) -> Seq<FixtureWorkstream>
    decreases list.len(),
{
    if list.len() == 0 {
        Seq::empty()
    } else {
        let earlier = kept(list.drop_last());
        match place_of(earlier, list.last().id@) {
            Some(i) => earlier.update(i, list.last()),
            None => earlier.push(list.last()),
        }
    }
}

/// The rows are those of the workstreams that are kept.
pub open spec fn rows_of(
    rows: Seq<Workstream>,
    list: Seq<FixtureWorkstream>,
    now: Seq<char>,
) -> bool {
    &&& rows.len() == kept(list).len()
    &&& forall|i: int|
        0 <= i < rows.len() ==> is_row_of(#[trigger] rows[i], kept(list)[i], now)
}

/// An item that is there from the start, as a row.
pub open spec fn is_item_of(r: ItemRow, f: FixtureInitialItem, now: Seq<char>) -> bool {
    &&& r.item.id@ == f.id@
    &&& r.item.workstream_id@ == f.workstream_id@
    &&& r.item.kind@ == f.kind@
    &&& r.item.status@ == f.status@
    &&& r.item.authority@ == f.authority@
    &&& r.item.created_by@ == "setup"@
    &&& r.item.current_revision_id is None
    &&& r.item.supersedes_item_id is None
    &&& r.item.created_at@ == now
    &&& r.item.updated_at@ == now
    &&& r.revision.id@ == "rev-init-"@ + f.id@
    &&& r.revision.item_id@ == f.id@
    &&& r.revision.title@ == f.title@
    &&& r.revision.content@ == f.content@
    &&& r.revision.metadata.tree() == Tree::Object(Seq::empty())
    &&& r.revision.source_type.deep_view() == Some("user_edit"@)
    &&& r.revision.source_ref is None
    &&& r.revision.sync_run_id is None
    &&& r.revision.created_at@ == now
}

/// The agent that a name in small letters stands for.
pub open spec fn agent_called(n: Seq<char>) -> Agent {
    if n == "codex"@ {
        Agent::Codex
    } else if n == Agent::ClaudeCode.name() || n == split_on(Agent::ClaudeCode.name(), '_')[0] {
        Agent::ClaudeCode
    } else if n == "pi"@ {
        Agent::Pi
    } else if n == "qoder"@ || n == "qcoder"@ {
        Agent::Qoder
    } else if n == "autoclaw"@ || n == "openclaw"@ {
        Agent::AutoClaw
    } else if n == "workbuddy"@ || n == "work_buddy"@ {
        Agent::WorkBuddy
    } else if n == "dsh"@ || n == "deepseek_harness"@ {
        Agent::Dsh
    } else if n == "zcode"@ || n == "z_code"@ {
        Agent::ZCode
    } else {
        Agent::Codex
    }
}

/// The agent that a fixture's session is of.
pub open spec fn fixture_agent(name: Seq<char>) -> Agent {
    agent_called(small_letters(name))
}

/// Who speaks in a message of a fixture.
pub open spec fn event_role(e: FixtureEvent) -> SessionMessageRole {
    if e.kind@ == "user_message"@ {
        SessionMessageRole::User
    } else {
        SessionMessageRole::Assistant
    }
}

/// The id that a message of a fixture has at its source.
pub open spec fn event_id(fixture: Seq<char>, e: FixtureEvent) -> Seq<char> {
    "ev-"@ + fixture + "-"@ + signed_decimal(e.sequence as int)
}

/// A message of a fixture, as a row.
pub open spec fn is_message_of(
    m: SessionMessage,
    fixture: Seq<char>,
    session: Seq<char>,
    e: FixtureEvent,
    id: Seq<char>,
    place: int,
) -> bool {
    &&& m.id@ == id
    &&& m.session_id@ == session
    &&& m.source_message_id.deep_view() == Some(event_id(fixture, e))
    &&& m.sequence == place
    &&& m.ts is None
    &&& m.role == event_role(e)
    &&& m.content@ == e.text@
}

/// A message of a fixture, as it is taken in.
pub open spec fn is_seed_of(s: SeededMessage, fixture: Seq<char>, e: FixtureEvent) -> bool {
    &&& s.message.deep_view() == Message {
        source_message_id: Some(event_id(fixture, e)),
        source_position: "line:"@ + signed_decimal(e.sequence as int),
        ts: None,
        role: event_role(e),
        content: e.text@,
        provider: None,
        model: None,
    }
    &&& s.cursor.deep_view() == SourceState {
        file_identity: "eval-"@ + fixture,
        generation: 0,
        byte_offset: (e.sequence as u64) as int,
        last_seen_size: (e.sequence as u64) as int,
        mtime: None,
        start_byte_offset: 0,
        prefix_hash: Seq::empty(),
    }
}

/// A message of a fixture, as a prompt names it.
pub open spec fn is_ref_of(
    r: PromptMessageRef,
    e: FixtureEvent,
    id: Seq<char>,
    place: int,
) -> bool {
    &&& r.short_ref@ == "#"@ + signed_decimal(e.sequence as int)
    &&& r.message_id@ == id
    &&& r.sequence == place
    &&& r.role == event_role(e)
}

/// Whether some event comes twice: the second would not be taken in.
pub open spec fn repeats(events: Seq<FixtureEvent>) -> bool {
    exists|i: int, j: int|
        0 <= i < j < events.len() && (#[trigger] events[i]).sequence == (
        #[trigger] events[j]).sequence
}

/// The session of a fixture.
pub open spec fn is_session_of(
    s: Session,
    f: ContextQualityFixture,
    session_id: Seq<char>,
    now: Seq<char>,
) -> bool {
    &&& s.id@ == session_id
    &&& s.agent == fixture_agent(f.input.session.agent@)
    &&& s.root_agent_session_id@ == "as-"@ + f.name@
    &&& s.title.deep_view() == Some(f.input.session.title@)
    &&& s.owner_workstream_id is None
    &&& s.cwd is None
    &&& s.workspace_path_id is None
    &&& s.project_id is None
    &&& s.forked_from_session_id is None
    &&& s.started_at.deep_view() == Some(now)
    &&& s.last_activity_at.deep_view() == Some(now)
    &&& s.last_conversation_at is None
    &&& s.trashed_at is None
}

/// The state of a fixture: its rows, its session and its conversation, message by message.
pub open spec fn is_state_of(
    env: FixtureEnv,
    f: ContextQualityFixture,
    session_id: Seq<char>,
    ids: Seq<Seq<char>>,
    now: Seq<char>,
) -> bool {
    let events = f.input.events@;
    let n = events.len() as int;
    let store = env.store;
    &&& rows_of(store.workstreams@, f.input.workstreams@, now)
    &&& store.items@.len() == f.input.initial_context@.len()
    &&& forall|i: int|
        0 <= i < store.items@.len() ==> is_item_of(
            #[trigger] store.items@[i],
            f.input.initial_context@[i],
            now,
        )
    &&& store.sessions@ == seq![env.session]
    &&& is_session_of(env.session, f, session_id, now)
    &&& env.member.session_id@ == session_id
    &&& env.member.agent == env.session.agent
    &&& env.member.source_member_id@ == "as-"@ + f.name@
    &&& env.member.relation is Root
    &&& env.member.source_kind@ == "eval_fixture"@
    &&& env.member.source_path@ == "/tmp/"@ + f.name@ + ".jsonl"@
    &&& store.messages@ == env.session_messages@
    &&& env.session_messages@.len() == n
    &&& env.seeded@.len() == n
    &&& env.ref_map@.len() == n
    &&& forall|i: int|
        0 <= i < n ==> is_message_of(
            #[trigger] env.session_messages@[i],
            f.name@,
            session_id,
            events[i],
            ids[i],
            i + 1,
        )
    &&& forall|i: int| 0 <= i < n ==> is_seed_of(#[trigger] env.seeded@[i], f.name@, events[i])
    &&& forall|i: int|
        0 <= i < n ==> is_ref_of(#[trigger] env.ref_map@[i], events[i], ids[i], i + 1)
    &&& store.reading(session_id) == (0i64, n as i64)
    &&& f.input.workstreams@.len() > 0
    &&& env.owner_workstream_id@ == f.input.workstreams@[0].id@
    &&& store.conflicts@.len() == 0
    &&& store.contexts@.len() == 0
    &&& store.frontiers@.len() == 0
    &&& store.states@.len() == 0
}

fn worded(before: &str, middle: &str, after: &str) -> (r: String)
    ensures
        r@ == before@ + middle@ + after@,
{
    let mut s: String = before.to_owned();
    s.append(middle);
    s.append(after);
    s
}

fn first_part(name: &str) -> (r: String)
    ensures
        r@ == split_on(name@, '_')[0],
{
    let parts = split(name, '_');
    let ghost found = split_on(name@, '_');
    assert(found.len() > 0);
    assert(texts(parts@)[0] == parts@[0]@);
    parts[0].clone()
}

/// The agent that a name in small letters stands for; Codex where it is no agent's.
pub fn agent_by_name(s: &str) -> (r: Agent)
    ensures
        r == agent_called(s@),
{
    let product: String = first_part(Agent::ClaudeCode.as_str());
    if same(s, "codex") {
        Agent::Codex
    } else if same(s, Agent::ClaudeCode.as_str()) || same(s, product.as_str()) {
        Agent::ClaudeCode
    } else if same(s, "pi") {
        Agent::Pi
    } else if same(s, "qoder") || same(s, "qcoder") {
        Agent::Qoder
    } else if same(s, "autoclaw") || same(s, "openclaw") {
        Agent::AutoClaw
    } else if same(s, "workbuddy") || same(s, "work_buddy") {
        Agent::WorkBuddy
    } else if same(s, "dsh") || same(s, "deepseek_harness") {
        Agent::Dsh
    } else if same(s, "zcode") || same(s, "z_code") {
        Agent::ZCode
    } else {
        Agent::Codex
    }
}

fn agent_of(name: &str) -> (r: Agent)
    ensures
        r == fixture_agent(name@),
{
    agent_by_name(to_small_letters(name).as_str())
}

fn find_place(
    rows: &Vec<Workstream>,
    id: &str,
    list: Ghost<Seq<FixtureWorkstream>>,
    now: Ghost<Seq<char>>,
) -> (r: Option<usize>)
    requires
        rows@.len() == list@.len(),
        forall|i: int| 0 <= i < rows@.len() ==> is_row_of(#[trigger] rows@[i], list@[i], now@),
    ensures
        match r {
            Some(i) => place_of(list@, id@) == Some(i as int) && i < rows@.len(),
            None => place_of(list@, id@) is None,
        },
{
    let mut i: usize = rows.len();
    assert(list@.take(i as int) =~= list@);
    while i > 0
        invariant
            i <= rows@.len(),
            rows@.len() == list@.len(),
            forall|i: int| 0 <= i < rows@.len() ==> is_row_of(#[trigger] rows@[i], list@[i], now@),
            place_of(list@, id@) == place_of(list@.take(i as int), id@),
        decreases i,
    {
        assert(list@.take(i as int).drop_last() =~= list@.take(i - 1));
        assert(list@.take(i as int).last() == list@[i - 1]);
        i = i - 1;
        assert(is_row_of(rows@[i as int], list@[i as int], now@));
        if same(rows[i].id.as_str(), id) {
            return Some(i);
        }
    }
    None
}

fn workstream_rows(list: &Vec<FixtureWorkstream>, now: &str) -> (r: Vec<Workstream>)
    ensures
        rows_of(r@, list@, now@),
{
    let mut rows: Vec<Workstream> = Vec::new();
    let mut i: usize = 0;
    assert(list@.take(0) =~= Seq::<FixtureWorkstream>::empty());
    while i < list.len()
        invariant
            i <= list@.len(),
            rows_of(rows@, list@.take(i as int), now@),
        decreases list@.len() - i,
    {
        let ghost upto = list@.take(i + 1);
        assert(upto.drop_last() =~= list@.take(i as int));
        assert(upto.last() == list@[i as int]);
        let row = Workstream {
            id: list[i].id.clone(),
            title: list[i].title.clone(),
            description: list[i].description.clone(),
            lifecycle: "active".to_owned(),
            visibility: "normal".to_owned(),
            created_at: now.to_owned(),
            updated_at: now.to_owned(),
        };
        let ghost earlier = kept(list@.take(i as int));
        assert(is_row_of(row, upto.last(), now@));
        match find_place(&rows, list[i].id.as_str(), Ghost(earlier), Ghost(now@)) {
            Some(k) => {
                rows.set(k, row);
            },
            None => {
                rows.push(row);
            },
        }
        assert(rows_of(rows@, upto, now@));
        i = i + 1;
    }
    assert(list@.take(i as int) =~= list@);
    rows
}

fn item_rows(list: &Vec<FixtureInitialItem>, now: &str) -> (r: Vec<ItemRow>)
    ensures
        r@.len() == list@.len(),
        forall|i: int| 0 <= i < r@.len() ==> is_item_of(#[trigger] r@[i], list@[i], now@),
{
    let mut rows: Vec<ItemRow> = Vec::new();
    let mut i: usize = 0;
    while i < list.len()
        invariant
            i <= list@.len(),
            rows@.len() == i,
            forall|k: int| 0 <= k < i ==> is_item_of(#[trigger] rows@[k], list@[k], now@),
        decreases list@.len() - i,
    {
        let it = &list[i];
        rows.push(
            ItemRow {
                item: ContextItem {
                    id: it.id.clone(),
                    workstream_id: it.workstream_id.clone(),
                    kind: it.kind.clone(),
                    status: it.status.clone(),
                    authority: it.authority.clone(),
                    created_by: "setup".to_owned(),
                    current_revision_id: None,
                    supersedes_item_id: None,
                    created_at: now.to_owned(),
                    updated_at: now.to_owned(),
                },
                revision: ContextItemRevision {
                    id: worded("rev-init-", it.id.as_str(), ""),
                    item_id: it.id.clone(),
                    title: it.title.clone(),
                    content: it.content.clone(),
                    metadata: empty_object(),
                    source_type: Some("user_edit".to_owned()),
                    source_ref: None,
                    sync_run_id: None,
                    created_at: now.to_owned(),
                },
            },
        );
        proof {
            reveal_strlit("");
            assert("rev-init-"@ + it.id@ + ""@ =~= "rev-init-"@ + it.id@);
        }
        assert(is_item_of(rows@[i as int], list@[i as int], now@));
        i = i + 1;
    }
    rows
}

fn has_source_id(messages: &Vec<SessionMessage>, id: &str) -> (r: bool)
    ensures
        r == exists|k: int|
            0 <= k < messages@.len() && (#[trigger] messages@[k]).source_message_id.deep_view()
                == Some(id@),
{
    let mut i: usize = 0;
    while i < messages.len()
        invariant
            i <= messages@.len(),
            forall|k: int|
                0 <= k < i ==> (#[trigger] messages@[k]).source_message_id.deep_view() != Some(
                    id@,
                ),
        decreases messages@.len() - i,
    {
        match &messages[i].source_message_id {
            Some(s) => {
                if same(s.as_str(), id) {
                    assert(messages@[i as int].source_message_id.deep_view() == Some(id@));
                    return true;
                }
            },
            None => {},
        }
        i = i + 1;
    }
    false
}

proof fn ids_tell_events_apart(fixture: Seq<char>, a: FixtureEvent, b: FixtureEvent)
    ensures
        event_id(fixture, a) == event_id(fixture, b) <==> a.sequence == b.sequence,
{
    let head = "ev-"@ + fixture + "-"@;
    let x = signed_decimal(a.sequence as int);
    let y = signed_decimal(b.sequence as int);
    assert((head + x).skip(head.len() as int) =~= x);
    assert((head + y).skip(head.len() as int) =~= y);
    crate::text::signed_decimals_differ(a.sequence as int, b.sequence as int);
}

/// The state of a fixture, with the ids that its session and its messages get.
pub fn materialize(
    fixture: &ContextQualityFixture,
    session_id: &str,
    ids: &Vec<String>,
    now: &str,
) -> (r: Result<FixtureEnv, AppError>)
    requires
        ids@.len() == fixture.input.events@.len(),
        fixture.input.events@.len() < i64::MAX,
    ensures
        if repeats(fixture.input.events@) {
            r matches Err(e) && e.deep_view() == Fault::Other(
                "fixture "@ + fixture.name@ + ": seeded message deduped away"@,
            )
        } else if fixture.input.workstreams@.len() == 0 {
            r matches Err(e) && e.deep_view() == Fault::Other(
                "fixture "@ + fixture.name@ + ": 没有 Workstream"@,
            )
        } else {
            r matches Ok(env) && is_state_of(env, *fixture, session_id@, texts(ids@), now@)
        },
{
    let name: &str = fixture.name.as_str();
    let workstreams = workstream_rows(&fixture.input.workstreams, now);
    let items = item_rows(&fixture.input.initial_context, now);
    let agent = agent_of(fixture.input.session.agent.as_str());
    let root = worded("as-", name, "");
    proof {
        reveal_strlit("");
        assert("as-"@ + name@ + ""@ =~= "as-"@ + name@);
        assert("eval-"@ + name@ + ""@ =~= "eval-"@ + name@);
    }
    let session = Session {
        id: session_id.to_owned(),
        agent,
        root_agent_session_id: root.clone(),
        title: Some(fixture.input.session.title.clone()),
        owner_workstream_id: None,
        cwd: None,
        workspace_path_id: None,
        project_id: None,
        forked_from_session_id: None,
        started_at: Some(now.to_owned()),
        last_activity_at: Some(now.to_owned()),
        last_conversation_at: None,
        trashed_at: None,
    };
    let member = FixtureMember {
        session_id: session_id.to_owned(),
        agent,
        source_member_id: root,
        relation: SessionMemberRelation::Root,
        source_kind: "eval_fixture".to_owned(),
        source_path: worded("/tmp/", name, ".jsonl"),
    };
    let events = &fixture.input.events;
    let mut messages: Vec<SessionMessage> = Vec::new();
    let mut stored: Vec<SessionMessage> = Vec::new();
    let mut seeded: Vec<SeededMessage> = Vec::new();
    let mut ref_map: Vec<PromptMessageRef> = Vec::new();
    let mut i: usize = 0;
    while i < events.len()
        invariant
            i <= events@.len(),
            events == &fixture.input.events,
            name@ == fixture.name@,
            ids@.len() == events@.len(),
            events@.len() < i64::MAX,
            "eval-"@ + name@ + ""@ == "eval-"@ + name@,
            messages@.len() == i,
            stored@ == messages@,
            seeded@.len() == i,
            ref_map@.len() == i,
            forall|k: int|
                0 <= k < i ==> is_message_of(
                    #[trigger] messages@[k],
                    name@,
                    session_id@,
                    events@[k],
                    ids@[k]@,
                    k + 1,
                ),
            forall|k: int| 0 <= k < i ==> is_seed_of(#[trigger] seeded@[k], name@, events@[k]),
            forall|k: int|
                0 <= k < i ==> is_ref_of(#[trigger] ref_map@[k], events@[k], ids@[k]@, k + 1),
            forall|a: int, b: int|
                0 <= a < b < i ==> (#[trigger] events@[a]).sequence != (
                #[trigger] events@[b]).sequence,
        decreases events@.len() - i,
    {
        let e = &events[i];
        let number = signed_decimal_of(e.sequence);
        let mut source_id: String = worded("ev-", name, "-");
        source_id.append(number.as_str());
        let role: SessionMessageRole = if same(e.kind.as_str(), "user_message") {
            SessionMessageRole::User
        } else {
            SessionMessageRole::Assistant
        };
        if has_source_id(&messages, source_id.as_str()) {
            proof {
                let k = choose|k: int|
                    0 <= k < messages@.len() && (
                    #[trigger] messages@[k]).source_message_id.deep_view() == Some(source_id@);
                assert(is_message_of(
                    messages@[k],
                    name@,
                    session_id@,
                    events@[k],
                    ids@[k]@,
                    k + 1,
                ));
                ids_tell_events_apart(name@, events@[k], events@[i as int]);
                assert(events@[k].sequence == events@[i as int].sequence);
            }
            return Err(
                AppError::Other(worded("fixture ", name, ": seeded message deduped away")),
            );
        }
        proof {
            assert forall|k: int| 0 <= k < i implies (#[trigger] events@[k]).sequence
                != events@[i as int].sequence by {
                assert(is_message_of(
                    messages@[k],
                    name@,
                    session_id@,
                    events@[k],
                    ids@[k]@,
                    k + 1,
                ));
                ids_tell_events_apart(name@, events@[k], events@[i as int]);
            }
        }
        let place: i64 = i as i64 + 1;
        let m = SessionMessage {
            id: ids[i].clone(),
            session_id: session_id.to_owned(),
            source_message_id: Some(source_id.clone()),
            sequence: place,
            ts: None,
            role,
            content: e.text.clone(),
        };
        stored.push(m.copy());
        messages.push(m);
        assert(is_message_of(
            messages@[i as int],
            name@,
            session_id@,
            events@[i as int],
            ids@[i as int]@,
            i + 1,
        ));
        let mut position: String = "line:".to_owned();
        position.append(number.as_str());
        let seed = SeededMessage {
            message: ParsedSessionMessage {
                source_message_id: Some(source_id),
                source_position: position,
                ts: None,
                role,
                content: e.text.clone(),
                provider: None,
                model: None,
            },
            cursor: SourceCursorUpdate {
                file_identity: worded("eval-", name, ""),
                generation: 0,
                byte_offset: e.sequence as u64,
                last_seen_size: e.sequence as u64,
                mtime: None,
                start_byte_offset: 0,
                prefix_hash: String::new(),
            },
        };
        assert(seed.cursor.prefix_hash@ =~= Seq::<char>::empty());
        seeded.push(seed);
        assert(is_seed_of(seeded@[i as int], name@, events@[i as int]));
        let mut short_ref: String = "#".to_owned();
        short_ref.append(number.as_str());
        ref_map.push(
            PromptMessageRef { short_ref, message_id: ids[i].clone(), sequence: place, role },
        );
        assert(is_ref_of(ref_map@[i as int], events@[i as int], ids@[i as int]@, i + 1));
        i = i + 1;
    }
    if fixture.input.workstreams.len() == 0 {
        return Err(AppError::Other(worded("fixture ", name, ": 没有 Workstream")));
    }
    let mut sessions: Vec<Session> = Vec::new();
    sessions.push(session.copy());
    let mut ingest: Vec<SessionIngestState> = Vec::new();
    ingest.push(
        SessionIngestState {
            session_id: session_id.to_owned(),
            generation: 0,
            latest_message_seq: i as i64,
        },
    );
    let store = Store {
        workstreams,
        sessions,
        items,
        conflicts: Vec::new(),
        messages: stored,
        ingest,
        contexts: Vec::new(),
        frontiers: Vec::new(),
        states: Vec::new(),
    };
    let env = FixtureEnv {
        store,
        session,
        member,
        seeded,
        session_messages: messages,
        owner_workstream_id: fixture.input.workstreams[0].id.clone(),
        ref_map,
    };
    assert(env.store.sessions@ =~= seq![env.session]);
    proof {
        reveal_with_fuel(crate::store::ingest_in, 2);
        assert(env.store.ingest@.drop_last() =~= Seq::<SessionIngestState>::empty());
        assert(env.store.reading(session_id@) == (0i64, i as i64));
        assert forall|k: int| 0 <= k < events@.len() implies is_message_of(
            #[trigger] env.session_messages@[k],
            fixture.name@,
            session_id@,
            events@[k],
            texts(ids@)[k],
            k + 1,
        ) by {
            assert(texts(ids@)[k] == ids@[k]@);
        }
        assert forall|k: int| 0 <= k < events@.len() implies is_ref_of(
            #[trigger] env.ref_map@[k],
            events@[k],
            texts(ids@)[k],
            k + 1,
        ) by {
            assert(texts(ids@)[k] == ids@[k]@);
        }
    }
    Ok(env)
}

/// The state of a fixture; its session and its messages get fresh ids.
pub fn setup_fixture(fixture: &ContextQualityFixture, now: &str) -> (r: Result<
    FixtureEnv,
    AppError,
>)
    requires
        fixture.input.events@.len() < i64::MAX,
    ensures
        if repeats(fixture.input.events@) {
            r matches Err(e) && e.deep_view() == Fault::Other(
                "fixture "@ + fixture.name@ + ": seeded message deduped away"@,
            )
        } else if fixture.input.workstreams@.len() == 0 {
            r matches Err(e) && e.deep_view() == Fault::Other(
                "fixture "@ + fixture.name@ + ": 没有 Workstream"@,
            )
        } else {
            r matches Ok(env) && exists|session: Seq<char>, ids: Seq<Seq<char>>|
                #[trigger] is_state_of(env, *fixture, session, ids, now@)
        },
{
    let session_id = random_id();
    let mut ids: Vec<String> = Vec::new();
    let mut i: usize = 0;
    while i < fixture.input.events.len()
        invariant
            i <= fixture.input.events@.len(),
            ids@.len() == i,
        decreases fixture.input.events@.len() - i,
    {
        ids.push(random_id());
        i = i + 1;
    }
    let r = materialize(fixture, session_id.as_str(), &ids, now);
    assert(r matches Ok(env) ==> is_state_of(
        env,
        *fixture,
        session_id@,
        texts(ids@),
        now@,
    ));
    r
}

} // verus!
