//! ZCode: one live database for all sessions.
//!
//! The rows of three tables carry the conversation: sessions, messages, and the parts of a
//! message. Prose is the `text` parts of a message, in their order. The role of a message does
//! not tell who wrote it (the runtime talks to the model in the user's name); its semantics do.
//! A reply is read only once it is settled, since an event is never changed afterwards. Nothing
//! is launched.
use crate::adapters::events::{
    event_metadata, metadata_of_event, DiscoveredSession, Event, EventDelta, FoundSession,
    ParsedEvent, ReadDelta,
};
use crate::adapters::{shortened, truncate_text, AgentCommand};
use crate::domain::{Agent, SessionMemberCursor, SourceCursorUpdate, SourceState};
use crate::error::{other, AppError, Fault};
use crate::json::{parse, parsed, Json, Tree};
use crate::paths::{child_of, child_path};
use crate::text::{blank, is_blank, is_listed, join, joined, same, texts};
use crate::time::{ms_epoch_to_rfc3339, rfc3339_of_millis};
use vstd::prelude::*;

verus! {

/// The adapter for ZCode.
pub struct ZCodeAdapter;

// ---------------------------------------------------------------------------
// Rows
// ---------------------------------------------------------------------------

/// A row of the table of sessions that are not archived.
pub struct SessionRow {
    pub id: String,
    pub parent_id: Option<String>,
    pub directory: Option<String>,
    pub time_created: Option<i64>,
    pub time_updated: Option<i64>,
}

/// A row of the table of messages.
pub struct MessageRow {
    pub id: String,
    pub data: String,
}

/// A row of the table of parts.
pub struct PartRow {
    pub message_id: String,
    pub id: String,
    pub data: String,
    pub sequence: Option<i64>,
}

/// A part of a message.
pub struct Part {
    pub id: String,
    pub data: Json,
    pub sequence: i64,
}

/// A part of a message, as a mathematical value.
pub struct PartView {
    pub id: Seq<char>,
    pub data: Tree,
    pub sequence: int,
}

impl DeepView for Part {
    type V = PartView;

    open spec fn deep_view(&self) -> PartView {
        PartView { id: self.id@, data: self.data.tree(), sequence: self.sequence as int }
    }
}

/// A message with its parts.
pub struct StoredMessage {
    pub id: String,
    pub data: Json,
    pub parts: Vec<Part>,
}

/// A message with its parts, as a mathematical value.
pub struct MessageView {
    pub id: Seq<char>,
    pub data: Tree,
    pub parts: Seq<PartView>,
}

impl DeepView for StoredMessage {
    type V = MessageView;

    open spec fn deep_view(&self) -> MessageView {
        MessageView { id: self.id@, data: self.data.tree(), parts: self.parts.deep_view() }
    }
}

// ---------------------------------------------------------------------------
// The conversation
// ---------------------------------------------------------------------------

/// The parts of a message among rows, in the order of the rows. A row whose data is no document
/// is passed over.
pub open spec fn parts_of(rows: Seq<PartRow>, message_id: Seq<char>) -> Seq<PartView>
    decreases rows.len(),
{
    if rows.len() == 0 {
        Seq::empty()
    } else {
        let before = parts_of(rows.drop_last(), message_id);
        let row = rows.last();
        match parsed(row.data@) {
            Some(data) if row.message_id@ == message_id => before.push(
                PartView {
                    id: row.id@,
                    data,
                    sequence: match row.sequence {
                        Some(n) => n as int,
                        None => 0,
                    },
                },
            ),
            _ => before,
        }
    }
}

/// A message with an id is among these.
pub open spec fn told(messages: Seq<MessageView>, id: Seq<char>) -> bool {
    exists|i: int| 0 <= i < messages.len() && (#[trigger] messages[i]).id == id
}

/// The messages of a session, each with its parts. A message whose data is no document is passed
/// over, and parts go to the first message of their id.
pub open spec fn conversation_of(
    parts: Seq<PartRow>,
    messages: Seq<MessageRow>,
) -> Seq<MessageView>
    decreases messages.len(),
{
    if messages.len() == 0 {
        Seq::empty()
    } else {
        let before = conversation_of(parts, messages.drop_last());
        let row = messages.last();
        match parsed(row.data@) {
            None => before,
            Some(data) => before.push(
                MessageView {
                    id: row.id@,
                    data,
                    parts: if told(before, row.id@) {
                        Seq::empty()
                    } else {
                        parts_of(parts, row.id@)
                    },
                },
            ),
        }
    }
}

fn parts_for(rows: &Vec<PartRow>, message_id: &str) -> (r: Vec<Part>)
    ensures
        r.deep_view() == parts_of(rows@, message_id@),
{
    let mut out: Vec<Part> = Vec::new();
    let mut i: usize = 0;
    assert(rows@.take(0) =~= Seq::<PartRow>::empty());
    assert(out.deep_view() =~= Seq::<PartView>::empty());
    while i < rows.len()
        invariant
            i <= rows@.len(),
            out.deep_view() == parts_of(rows@.take(i as int), message_id@),
        decreases rows@.len() - i,
    {
        assert(rows@.take(i + 1).drop_last() =~= rows@.take(i as int));
        assert(rows@.take(i + 1).last() == rows@[i as int]);
        if same(rows[i].message_id.as_str(), message_id) {
            match parse(rows[i].data.as_str()) {
                Some(data) => {
                    let sequence: i64 = match rows[i].sequence {
                        Some(n) => n,
                        None => 0,
                    };
                    let part = Part { id: rows[i].id.clone(), data, sequence };
                    let ghost before = out.deep_view();
                    out.push(part);
                    assert(out.deep_view() =~= before.push(part.deep_view()));
                },
                None => {},
            }
        }
        i = i + 1;
    }
    assert(rows@.take(i as int) =~= rows@);
    out
}

fn is_told(messages: &Vec<StoredMessage>, id: &str) -> (r: bool)
    ensures
        r == told(messages.deep_view(), id@),
{
    let ghost all = messages.deep_view();
    let mut i: usize = 0;
    while i < messages.len()
        invariant
            i <= messages@.len(),
            all == messages.deep_view(),
            forall|k: int| 0 <= k < i ==> (#[trigger] all[k]).id != id@,
        decreases messages@.len() - i,
    {
        assert(all[i as int].id == messages@[i as int].id@);
        if same(messages[i].id.as_str(), id) {
            return true;
        }
        i = i + 1;
    }
    false
}

/// The messages of a session, each with its parts. The rows come in the order of their sequence.
pub fn conversation(parts: &Vec<PartRow>, messages: &Vec<MessageRow>) -> (r: Vec<StoredMessage>)
    ensures
        r.deep_view() == conversation_of(parts@, messages@),
{
    let mut out: Vec<StoredMessage> = Vec::new();
    let mut i: usize = 0;
    assert(messages@.take(0) =~= Seq::<MessageRow>::empty());
    assert(out.deep_view() =~= Seq::<MessageView>::empty());
    while i < messages.len()
        invariant
            i <= messages@.len(),
            out.deep_view() == conversation_of(parts@, messages@.take(i as int)),
        decreases messages@.len() - i,
    {
        assert(messages@.take(i + 1).drop_last() =~= messages@.take(i as int));
        assert(messages@.take(i + 1).last() == messages@[i as int]);
        match parse(messages[i].data.as_str()) {
            Some(data) => {
                let id: &str = messages[i].id.as_str();
                let own: Vec<Part> = if is_told(&out, id) {
                    let none: Vec<Part> = Vec::new();
                    assert(none.deep_view() =~= Seq::<PartView>::empty());
                    none
                } else {
                    parts_for(parts, id)
                };
                let message = StoredMessage { id: id.to_owned(), data, parts: own };
                let ghost before = out.deep_view();
                out.push(message);
                assert(out.deep_view() =~= before.push(message.deep_view()));
            },
            None => {},
        }
        i = i + 1;
    }
    assert(messages@.take(i as int) =~= messages@);
    out
}

// ---------------------------------------------------------------------------
// Prose
// ---------------------------------------------------------------------------

/// The texts of the `text` parts, each with its place in the order.
pub open spec fn placed_texts(parts: Seq<PartView>) -> Seq<(int, Seq<char>)>
    decreases parts.len(),
{
    if parts.len() == 0 {
        Seq::empty()
    } else {
        let before = placed_texts(parts.drop_last());
        let p = parts.last();
        match p.data.text_at("text"@) {
            Some(t) if p.data.text_at("type"@) == Some("text"@) => before.push((p.sequence, t)),
            _ => before,
        }
    }
}

/// `s` with `x` behind everything that is not placed later.
pub open spec fn placed_in(s: Seq<(int, Seq<char>)>, x: (int, Seq<char>)) -> Seq<
    (int, Seq<char>),
>
    decreases s.len(),
{
    if s.len() == 0 || s.last().0 <= x.0 {
        s.push(x)
    } else {
        placed_in(s.drop_last(), x).push(s.last())
    }
}

/// The texts by their place; those of the same place as they came.
pub open spec fn ordered(s: Seq<(int, Seq<char>)>) -> Seq<(int, Seq<char>)>
    decreases s.len(),
{
    if s.len() == 0 {
        Seq::empty()
    } else {
        placed_in(ordered(s.drop_last()), s.last())
    }
}

/// The prose of a message: the texts of its `text` parts by their place, one per line.
pub open spec fn prose_of_parts(parts: Seq<PartView>) -> Seq<char> {
    joined(
        ordered(placed_texts(parts)).map_values(|t: (int, Seq<char>)| t.1),
        "\n"@,
    )
}

/// Texts with their places, as a mathematical value.
pub open spec fn placed_views(v: Seq<(i64, String)>) -> Seq<(int, Seq<char>)> {
    v.map_values(|t: (i64, String)| (t.0 as int, t.1@))
}

proof fn placed_in_is_insert(s: Seq<(int, Seq<char>)>, x: (int, Seq<char>), i: int)
    requires
        0 <= i <= s.len(),
        i > 0 ==> s[i - 1].0 <= x.0,
        forall|k: int| i <= k < s.len() ==> (#[trigger] s[k]).0 > x.0,
    ensures
        placed_in(s, x) == s.insert(i, x),
    decreases s.len(),
{
    if s.len() == 0 || s.last().0 <= x.0 {
        assert(i == s.len());
        assert(s.insert(i, x) =~= s.push(x));
    } else {
        assert(i < s.len());
        placed_in_is_insert(s.drop_last(), x, i);
        assert(s.drop_last().insert(i, x).push(s.last()) =~= s.insert(i, x));
    }
}

fn place_in(v: &mut Vec<(i64, String)>, sequence: i64, text: String)
    ensures
        placed_views(final(v)@) == placed_in(
            placed_views(old(v)@),
            (sequence as int, text@),
        ),
{
    let ghost before = placed_views(v@);
    let ghost x = (sequence as int, text@);
    let mut i: usize = v.len();
    while i > 0 && v[i - 1].0 > sequence
        invariant
            i <= v@.len(),
            before == placed_views(v@),
            forall|k: int| i <= k < v@.len() ==> (#[trigger] before[k]).0 > sequence,
        decreases i,
    {
        i = i - 1;
        assert(before[i as int].0 == v@[i as int].0);
    }
    proof {
        if i > 0 {
            assert(before[i - 1].0 == v@[i - 1].0);
        }
        placed_in_is_insert(before, x, i as int);
    }
    v.insert(i, (sequence, text));
    assert(placed_views(v@) =~= before.insert(i as int, x));
}

/// The prose of a message.
pub fn text_of(parts: &Vec<Part>) -> (r: String)
    ensures
        r@ == prose_of_parts(parts.deep_view()),
{
    let ghost all = parts.deep_view();
    let mut sorted: Vec<(i64, String)> = Vec::new();
    let mut i: usize = 0;
    assert(all.take(0) =~= Seq::<PartView>::empty());
    assert(placed_views(sorted@) =~= Seq::<(int, Seq<char>)>::empty());
    while i < parts.len()
        invariant
            i <= parts@.len(),
            all == parts.deep_view(),
            placed_views(sorted@) == ordered(placed_texts(all.take(i as int))),
        decreases parts@.len() - i,
    {
        assert(all.take(i + 1).drop_last() =~= all.take(i as int));
        assert(all.take(i + 1).last() == parts@[i as int].deep_view());
        if parts[i].data.text_is("type", "text") {
            match parts[i].data.string_at("text") {
                Some(t) => {
                    let ghost entry = (parts@[i as int].sequence as int, t@);
                    let ghost before = placed_texts(all.take(i as int));
                    place_in(&mut sorted, parts[i].sequence, t);
                    assert(before.push(entry).drop_last() =~= before);
                },
                None => {},
            }
        }
        i = i + 1;
    }
    assert(all.take(i as int) =~= all);
    let mut lines: Vec<String> = Vec::new();
    let ghost in_order = placed_views(sorted@).map_values(|t: (int, Seq<char>)| t.1);
    let mut k: usize = 0;
    assert(texts(lines@) =~= in_order.take(0));
    while k < sorted.len()
        invariant
            k <= sorted@.len(),
            in_order == placed_views(sorted@).map_values(|t: (int, Seq<char>)| t.1),
            texts(lines@) == in_order.take(k as int),
        decreases sorted@.len() - k,
    {
        let line = sorted[k].1.clone();
        let ghost before = texts(lines@);
        lines.push(line);
        k = k + 1;
        assert(texts(lines@) =~= before.push(line@));
        assert(in_order.take(k as int) =~= in_order.take(k - 1).push(in_order[k - 1]));
    }
    assert(in_order.take(k as int) =~= in_order);
    join(&lines, "\n")
}

// ---------------------------------------------------------------------------
// Events
// ---------------------------------------------------------------------------

/// The text in field `b` of the object in field `a`.
pub open spec fn inner_text(v: Tree, a: Seq<char>, b: Seq<char>) -> Option<Seq<char>> {
    v.field_or_null(a).text_at(b)
}

fn inner_text_is(v: &Json, a: &str, b: &str, value: &str) -> (r: bool)
    ensures
        r == (inner_text(v.tree(), a@, b@) == Some(value@)),
{
    match v.get(a) {
        Some(o) => o.text_is(b, value),
        None => false,
    }
}

/// What a message is by its semantics, where it is conversation.
pub open spec fn semantics_of(data: Tree) -> Option<Seq<char>> {
    let origin = inner_text(data, "semantics"@, "origin"@);
    let kind = inner_text(data, "semantics"@, "kind"@);
    if origin == Some("real_user"@) && kind == Some("user_prompt"@) {
        Some("user_prompt"@)
    } else if origin == Some("agent_runtime"@) && kind == Some("assistant_response"@) {
        Some("assistant_response"@)
    } else {
        None
    }
}

/// What a message is by its semantics, where it is conversation.
pub fn message_kind(data: &Json) -> (r: Option<&'static str>)
    ensures
        r.deep_view() == semantics_of(data.tree()),
{
    if inner_text_is(data, "semantics", "origin", "real_user") && inner_text_is(
        data,
        "semantics",
        "kind",
        "user_prompt",
    ) {
        Some("user_prompt")
    } else if inner_text_is(data, "semantics", "origin", "agent_runtime") && inner_text_is(
        data,
        "semantics",
        "kind",
        "assistant_response",
    ) {
        Some("assistant_response")
    } else {
        None
    }
}

/// The message says when its generation was completed.
pub open spec fn settled(data: Tree) -> bool {
    match data.field_or_null("time"@).field("completed"@) {
        Some(t) => !(t is Null),
        None => false,
    }
}

/// Whether the generation of a message was completed.
pub fn is_settled(data: &Json) -> (r: bool)
    ensures
        r == settled(data.tree()),
{
    match data.get("time") {
        Some(time) => match time.get("completed") {
            Some(t) => !matches!(t, Json::Null),
            None => false,
        },
        None => false,
    }
}

/// When a message was created.
pub open spec fn created_at(data: Tree) -> Option<Seq<char>> {
    match data.field_or_null("time"@).whole_at("created"@) {
        Some(ms) => rfc3339_of_millis(ms),
        None => None,
    }
}

fn time_created(data: &Json) -> (r: Option<String>)
    ensures
        r.deep_view() == created_at(data.tree()),
{
    match data.get("time") {
        Some(time) => match time.get("created") {
            Some(t) => match t.as_i64() {
                Some(ms) => ms_epoch_to_rfc3339(ms),
                None => None,
            },
            None => None,
        },
        None => None,
    }
}

/// The first part that marks a compaction.
pub open spec fn compaction_part(parts: Seq<PartView>) -> Option<PartView>
    decreases parts.len(),
{
    if parts.len() == 0 {
        None
    } else if parts[0].data.text_at("type"@) == Some("compaction"@) {
        Some(parts[0])
    } else {
        compaction_part(parts.drop_first())
    }
}

fn first_compaction(parts: &Vec<Part>) -> (r: Option<usize>)
    ensures
        match r {
            Some(i) => i < parts@.len() && compaction_part(parts.deep_view()) == Some(
                parts@[i as int].deep_view(),
            ),
            None => compaction_part(parts.deep_view()) is None,
        },
{
    let ghost all = parts.deep_view();
    let mut i: usize = 0;
    assert(all.skip(0) =~= all);
    while i < parts.len()
        invariant
            i <= parts@.len(),
            all == parts.deep_view(),
            compaction_part(all) == compaction_part(all.skip(i as int)),
        decreases parts@.len() - i,
    {
        assert(all.skip(i as int)[0] == parts@[i as int].deep_view());
        assert(all.skip(i as int).drop_first() =~= all.skip(i + 1));
        if parts[i].data.text_is("type", "compaction") {
            return Some(i);
        }
        i = i + 1;
    }
    None
}

/// The prose that a message contributes. A reply that is not settled contributes none yet.
pub open spec fn spoken_event(m: MessageView) -> Option<Event> {
    let text = prose_of_parts(m.parts);
    match semantics_of(m.data) {
        None => None,
        Some(kind) => if (kind == "assistant_response"@ && !settled(m.data)) || blank(text) {
            None
        } else {
            Some(
                Event {
                    source_event_id: Some(m.id),
                    source_position: "msg:"@ + m.id,
                    ts: created_at(m.data),
                    kind: if kind == "user_prompt"@ {
                        "user_message"@
                    } else {
                        "assistant_message"@
                    },
                    text: Some(text),
                    metadata: event_metadata("zcode"@, kind),
                },
            )
        },
    }
}

/// The compaction that a message marks.
pub open spec fn compaction_event(m: MessageView) -> Option<Event> {
    match compaction_part(m.parts) {
        None => None,
        Some(p) => Some(
            Event {
                source_event_id: Some(p.id),
                source_position: "part:"@ + p.id,
                ts: None,
                kind: "compact"@,
                text: Some("conversation compacted"@),
                metadata: event_metadata("zcode"@, "compaction"@),
            },
        ),
    }
}

/// What one message contributes: its prose, then the compaction that it marks.
pub open spec fn events_of_message(m: MessageView) -> Seq<Event> {
    let spoken = match spoken_event(m) {
        Some(e) => seq![e],
        None => Seq::empty(),
    };
    match compaction_event(m) {
        Some(e) => spoken.push(e),
        None => spoken,
    }
}

/// What a conversation contributes.
pub open spec fn events_of_all(messages: Seq<MessageView>) -> Seq<Event>
    decreases messages.len(),
{
    if messages.len() == 0 {
        Seq::empty()
    } else {
        events_of_all(messages.drop_last()) + events_of_message(messages.last())
    }
}

/// What one message contributes: its prose, then the compaction that it marks.
pub fn events_of(m: &StoredMessage) -> (r: Vec<ParsedEvent>)
    ensures
        r.deep_view() == events_of_message(m.deep_view()),
{
    let mut out: Vec<ParsedEvent> = Vec::new();
    assert(out.deep_view() =~= Seq::<Event>::empty());
    let ghost view = m.deep_view();
    proof {
        reveal_strlit("user_prompt");
        reveal_strlit("assistant_response");
        assert("user_prompt"@.len() == 11 && "assistant_response"@.len() == 18);
    }
    match message_kind(&m.data) {
        Some(kind) => {
            let reply: bool = same(kind, "assistant_response");
            if !reply || is_settled(&m.data) {
                let text = text_of(&m.parts);
                if !is_blank(text.as_str()) {
                    let mut position: String = "msg:".to_owned();
                    position.append(m.id.as_str());
                    let e = ParsedEvent {
                        source_event_id: Some(m.id.clone()),
                        source_position: position,
                        ts: time_created(&m.data),
                        kind: if reply {
                            "assistant_message".to_owned()
                        } else {
                            "user_message".to_owned()
                        },
                        text: Some(text),
                        metadata: metadata_of_event("zcode", kind),
                    };
                    out.push(e);
                    assert(out.deep_view() =~= seq![e.deep_view()]);
                }
            }
        },
        None => {},
    }
    assert(out.deep_view() == (match spoken_event(view) {
        Some(e) => seq![e],
        None => Seq::empty(),
    }));
    match first_compaction(&m.parts) {
        Some(i) => {
            let id: &String = &m.parts[i].id;
            let mut position: String = "part:".to_owned();
            position.append(id.as_str());
            let e = ParsedEvent {
                source_event_id: Some(id.clone()),
                source_position: position,
                ts: None,
                kind: "compact".to_owned(),
                text: Some("conversation compacted".to_owned()),
                metadata: metadata_of_event("zcode", "compaction"),
            };
            let ghost before = out.deep_view();
            out.push(e);
            assert(out.deep_view() =~= before.push(e.deep_view()));
        },
        None => {},
    }
    out
}

/// The first prompt of a conversation that holds anything.
pub open spec fn first_prompt(messages: Seq<MessageView>) -> Option<Seq<char>>
    decreases messages.len(),
{
    if messages.len() == 0 {
        None
    } else if semantics_of(messages[0].data) == Some("user_prompt"@) && !blank(
        prose_of_parts(messages[0].parts),
    ) {
        Some(shortened(prose_of_parts(messages[0].parts), 400))
    } else {
        first_prompt(messages.drop_first())
    }
}

// ---------------------------------------------------------------------------
// Discovery and reading
// ---------------------------------------------------------------------------

/// A time in epoch milliseconds, where there is one.
pub open spec fn time_of(ms: Option<i64>) -> Option<Seq<char>> {
    match ms {
        Some(ms) => rfc3339_of_millis(ms),
        None => None,
    }
}

/// The session that a row is. `path` is the database, `messages` the session's conversation.
pub open spec fn session_of(
    row: SessionRow,
    path: Seq<char>,
    messages: Seq<MessageView>,
) -> FoundSession {
    FoundSession {
        agent: Agent::ZCode,
        agent_session_id: row.id@,
        path,
        cwd: match row.directory.deep_view() {
            Some(d) if d.len() > 0 => Some(d),
            _ => None,
        },
        started_at: time_of(row.time_created),
        last_activity_at: time_of(row.time_updated),
        native_title: None,
        first_user_text: first_prompt(messages),
        first_agent_text: None,
        parent_agent_session_id: row.parent_id.deep_view(),
    }
}

/// The state of the database after a read. Only a replaced database is a new generation.
pub open spec fn store_after(
    identity: Seq<char>,
    size: int,
    mtime: Option<i64>,
    cursor: SessionMemberCursor,
) -> SourceState {
    SourceState {
        file_identity: identity,
        generation: if cursor.fresh() {
            0
        } else if identity != cursor.source_file_identity@ {
            cursor.generation + 1
        } else {
            cursor.generation as int
        },
        byte_offset: size,
        last_seen_size: size,
        mtime,
        start_byte_offset: 0,
        prefix_hash: Seq::empty(),
    }
}

fn time_text(ms: Option<i64>) -> (r: Option<String>)
    ensures
        r.deep_view() == time_of(ms),
{
    match ms {
        Some(ms) => ms_epoch_to_rfc3339(ms),
        None => None,
    }
}

impl ZCodeAdapter {
    /// The first prompt of a conversation that holds anything.
    pub fn first_user_text(messages: &Vec<StoredMessage>) -> (r: Option<String>)
        ensures
            r.deep_view() == first_prompt(messages.deep_view()),
    {
        let ghost all = messages.deep_view();
        let mut i: usize = 0;
        assert(all.skip(0) =~= all);
        while i < messages.len()
            invariant
                i <= messages@.len(),
                all == messages.deep_view(),
                first_prompt(all) == first_prompt(all.skip(i as int)),
            decreases messages@.len() - i,
        {
            assert(all.skip(i as int)[0] == messages@[i as int].deep_view());
            assert(all.skip(i as int).drop_first() =~= all.skip(i + 1));
            let prompt: bool = match message_kind(&messages[i].data) {
                Some(kind) => same(kind, "user_prompt"),
                None => false,
            };
            if prompt {
                let text = text_of(&messages[i].parts);
                if !is_blank(text.as_str()) {
                    return Some(truncate_text(text.as_str(), 400));
                }
            }
            i = i + 1;
        }
        None
    }

    /// The session that a row is.
    pub fn parse_session_row(row: &SessionRow, path: &str, messages: &Vec<StoredMessage>) -> (r:
        DiscoveredSession)
        ensures
            r.deep_view() == session_of(*row, path@, messages.deep_view()),
    {
        let cwd: Option<String> = match &row.directory {
            Some(d) => {
                if d.as_str().is_empty() {
                    None
                } else {
                    Some(d.clone())
                }
            },
            None => None,
        };
        DiscoveredSession {
            agent: Agent::ZCode,
            agent_session_id: row.id.clone(),
            path: path.to_owned(),
            cwd,
            started_at: time_text(row.time_created),
            last_activity_at: time_text(row.time_updated),
            native_title: None,
            first_user_text: ZCodeAdapter::first_user_text(messages),
            first_agent_text: None,
            parent_agent_session_id: crate::domain::copy_text(&row.parent_id),
        }
    }

    /// Reads a session: all that its rows tell. `identity`, `size` and `mtime` are those of the
    /// database file.
    pub fn read_delta(
        messages: &Vec<StoredMessage>,
        identity: &str,
        size: u64,
        mtime: Option<i64>,
        cursor: &SessionMemberCursor,
    ) -> (r: ReadDelta)
        requires
            cursor.generation < i64::MAX,
        ensures
            r.deep_view() == (EventDelta {
                events: events_of_all(messages.deep_view()),
                source: Some(store_after(identity@, size as int, mtime, *cursor)),
            }),
    {
        let ghost all = messages.deep_view();
        let mut events: Vec<ParsedEvent> = Vec::new();
        let mut i: usize = 0;
        assert(all.take(0) =~= Seq::<MessageView>::empty());
        assert(events.deep_view() =~= Seq::<Event>::empty());
        while i < messages.len()
            invariant
                i <= messages@.len(),
                all == messages.deep_view(),
                events.deep_view() == events_of_all(all.take(i as int)),
            decreases messages@.len() - i,
        {
            assert(all.take(i + 1).drop_last() =~= all.take(i as int));
            assert(all.take(i + 1).last() == messages@[i as int].deep_view());
            let mut more = events_of(&messages[i]);
            let ghost before = events.deep_view();
            let ghost added = more.deep_view();
            events.append(&mut more);
            assert(events.deep_view() =~= before + added);
            i = i + 1;
        }
        assert(all.take(i as int) =~= all);
        let first_ever: bool = cursor.source_file_identity.as_str().is_empty()
            && cursor.last_seen_size == 0;
        let generation: i64 = if first_ever {
            0
        } else if !same(identity, cursor.source_file_identity.as_str()) {
            cursor.generation + 1
        } else {
            cursor.generation
        };
        ReadDelta {
            events,
            source: Some(
                SourceCursorUpdate {
                    file_identity: identity.to_owned(),
                    generation,
                    byte_offset: size,
                    last_seen_size: size,
                    mtime,
                    start_byte_offset: 0,
                    prefix_hash: String::new(),
                },
            ),
        }
    }

    /// A new session cannot be launched.
    pub fn build_new_command() -> (r: Result<AgentCommand, AppError>)
        ensures
            r matches Err(e) && e.deep_view() == Fault::Other(
                "ZCode 是桌面应用，没有可启动的 CLI"@,
            ),
    {
        Err(other("ZCode 是桌面应用，没有可启动的 CLI"))
    }

    /// A session cannot be continued.
    pub fn build_resume_command() -> (r: Result<AgentCommand, AppError>)
        ensures
            r matches Err(e) && e.deep_view() == Fault::Other(
                "ZCode 是桌面应用，没有可启动的 CLI"@,
            ),
    {
        Err(other("ZCode 是桌面应用，没有可启动的 CLI"))
    }

    /// One answer cannot be asked for.
    pub fn build_exec_command() -> (r: Result<AgentCommand, AppError>)
        ensures
            r matches Err(e) && e.deep_view() == Fault::Other(
                "ZCode 是桌面应用，没有可启动的 CLI"@,
            ),
    {
        Err(other("ZCode 是桌面应用，没有可启动的 CLI"))
    }
}

// ---------------------------------------------------------------------------
// Laws
// ---------------------------------------------------------------------------

/// The places of the texts do not decrease.
pub open spec fn in_order(s: Seq<(int, Seq<char>)>) -> bool {
    forall|i: int, j: int| 0 <= i <= j < s.len() ==> (#[trigger] s[i]).0 <= (#[trigger] s[j]).0
}

proof fn placing_keeps_order(s: Seq<(int, Seq<char>)>, x: (int, Seq<char>))
    requires
        in_order(s),
    ensures
        in_order(placed_in(s, x)),
        placed_in(s, x).to_multiset() == s.to_multiset().insert(x),
        placed_in(s, x).len() == s.len() + 1,
        placed_in(s, x).last().0 == s.last().0 || placed_in(s, x).last() == x,
        forall|i: int|
            0 <= i < placed_in(s, x).len() && s.len() > 0 ==> (#[trigger] placed_in(s, x)[i]).0
                <= s.last().0 || placed_in(s, x)[i].0 <= x.0,
    decreases s.len(),
{
    broadcast use vstd::seq_lib::group_to_multiset_ensures;

    if s.len() == 0 || s.last().0 <= x.0 {
    } else {
        let rest = s.drop_last();
        placing_keeps_order(rest, x);
        let r = placed_in(rest, x);
        assert(forall|i: int| 0 <= i < rest.len() ==> (#[trigger] rest[i]).0 <= s.last().0);
        assert forall|i: int| 0 <= i < r.len() implies (#[trigger] r[i]).0 <= s.last().0 by {
            if rest.len() > 0 {
                assert(rest.last() == s[s.len() - 2]);
            }
        }
        assert(s =~= rest.push(s.last()));
        assert(rest.push(s.last()).to_multiset() =~= rest.to_multiset().insert(s.last()));
        assert(r.push(s.last()).to_multiset() =~= r.to_multiset().insert(s.last()));
        assert(rest.to_multiset().insert(x).insert(s.last()) =~= rest.to_multiset().insert(
            s.last(),
        ).insert(x));
    }
}

/// A message's texts are told in the order of their places, each exactly as often as the message
/// holds it.
pub proof fn texts_are_told_in_order(s: Seq<(int, Seq<char>)>)
    ensures
        in_order(ordered(s)),
        ordered(s).to_multiset() == s.to_multiset(),
    decreases s.len(),
{
    broadcast use vstd::seq_lib::group_to_multiset_ensures;

    if s.len() > 0 {
        texts_are_told_in_order(s.drop_last());
        placing_keeps_order(ordered(s.drop_last()), s.last());
        assert(s =~= s.drop_last().push(s.last()));
    } else {
        assert(ordered(s) =~= s);
    }
}

/// A reply whose generation is not completed contributes no prose.
pub proof fn an_unsettled_reply_is_not_told(m: MessageView)
    requires
        semantics_of(m.data) == Some("assistant_response"@),
        !settled(m.data),
    ensures
        spoken_event(m) is None,
{
}

/// What the runtime says in the user's name is never told.
pub proof fn the_runtime_is_not_told(m: MessageView)
    requires
        inner_text(m.data, "semantics"@, "origin"@) != Some("real_user"@),
        inner_text(m.data, "semantics"@, "kind"@) != Some("assistant_response"@),
    ensures
        spoken_event(m) is None,
{
}

// ---------------------------------------------------------------------------
// Discovery
// ---------------------------------------------------------------------------

/// Where the database stands under a root.
pub open spec fn database_in(root: Seq<char>) -> Seq<char> {
    child_of(child_of(child_of(root, "cli"@), "db"@), "db.sqlite"@)
}

/// The database of a root: the one under it, or the root itself, where it is a file.
pub open spec fn database_of(root: Seq<char>, files: Seq<Seq<char>>) -> Option<Seq<char>> {
    if files.contains(root) {
        Some(root)
    } else if files.contains(database_in(root)) {
        Some(database_in(root))
    } else {
        None
    }
}

/// Where the database stands under a root.
pub fn db_candidate(root: &str) -> (r: String)
    ensures
        r@ == database_in(root@),
{
    child_path(child_path(child_path(root, "cli").as_str(), "db").as_str(), "db.sqlite")
}

/// The database of a root. `files` are the files that there are.
pub fn db_path(root: &str, files: &Vec<String>) -> (r: Option<String>)
    ensures
        r.deep_view() == database_of(root@, texts(files@)),
{
    if is_listed(files, root) {
        return Some(root.to_owned());
    }
    let candidate = db_candidate(root);
    if is_listed(files, candidate.as_str()) {
        Some(candidate)
    } else {
        None
    }
}

/// A session that is not archived, with its rows.
pub struct StoredSession {
    pub row: SessionRow,
    pub messages: Vec<MessageRow>,
    pub parts: Vec<PartRow>,
}

/// A database, with its sessions by the time they were created.
pub struct SessionStore {
    pub path: String,
    pub sessions: Vec<StoredSession>,
}

/// The sessions of a database.
pub open spec fn sessions_of(path: Seq<char>, sessions: Seq<StoredSession>) -> Seq<FoundSession> {
    sessions.map_values(
        |s: StoredSession| session_of(s.row, path, conversation_of(s.parts@, s.messages@)),
    )
}

/// The paths of databases.
pub open spec fn store_paths(stores: Seq<SessionStore>) -> Seq<Seq<char>> {
    stores.map_values(|s: SessionStore| s.path@)
}

/// The sessions of databases, in order. A database that was seen before is passed over.
pub open spec fn sessions_among(stores: Seq<SessionStore>) -> Seq<FoundSession>
    decreases stores.len(),
{
    if stores.len() == 0 {
        Seq::empty()
    } else {
        let before = sessions_among(stores.drop_last());
        if store_paths(stores.drop_last()).contains(stores.last().path@) {
            before
        } else {
            before + sessions_of(stores.last().path@, stores.last().sessions@)
        }
    }
}

fn sessions_in_store(store: &SessionStore) -> (r: Vec<DiscoveredSession>)
    ensures
        r.deep_view() == sessions_of(store.path@, store.sessions@),
{
    let mut out: Vec<DiscoveredSession> = Vec::new();
    let mut i: usize = 0;
    while i < store.sessions.len()
        invariant
            i <= store.sessions@.len(),
            out.deep_view() == sessions_of(store.path@, store.sessions@.take(i as int)),
        decreases store.sessions@.len() - i,
    {
        let s = &store.sessions[i];
        let messages = conversation(&s.parts, &s.messages);
        let found = ZCodeAdapter::parse_session_row(&s.row, store.path.as_str(), &messages);
        let ghost before = out.deep_view();
        out.push(found);
        assert(out.deep_view() =~= before.push(found.deep_view()));
        assert(sessions_of(store.path@, store.sessions@.take(i + 1)) =~= sessions_of(
            store.path@,
            store.sessions@.take(i as int),
        ).push(found.deep_view()));
        i = i + 1;
    }
    assert(store.sessions@.take(i as int) =~= store.sessions@);
    out
}

impl ZCodeAdapter {
    /// The sessions of databases. All of them are read every time: that a database looks
    /// unchanged does not tell that each of its sessions is.
    pub fn discover_sessions_in(stores: &Vec<SessionStore>) -> (r: Vec<DiscoveredSession>)
        ensures
            r.deep_view() == sessions_among(stores@),
    {
        let mut out: Vec<DiscoveredSession> = Vec::new();
        let mut seen: Vec<String> = Vec::new();
        let mut i: usize = 0;
        assert(stores@.take(0) =~= Seq::<SessionStore>::empty());
        assert(out.deep_view() =~= sessions_among(stores@.take(0)));
        assert(texts(seen@) =~= store_paths(stores@.take(0)));
        while i < stores.len()
            invariant
                i <= stores@.len(),
                texts(seen@) == store_paths(stores@.take(i as int)),
                out.deep_view() == sessions_among(stores@.take(i as int)),
            decreases stores@.len() - i,
        {
            let ghost upto = stores@.take(i + 1);
            assert(upto.drop_last() =~= stores@.take(i as int));
            assert(upto.last() == stores@[i as int]);
            if !is_listed(&seen, stores[i].path.as_str()) {
                let mut more = sessions_in_store(&stores[i]);
                let ghost before = out.deep_view();
                let ghost new = more.deep_view();
                out.append(&mut more);
                assert(out.deep_view() =~= before + new);
            }
            let ghost before = texts(seen@);
            seen.push(stores[i].path.clone());
            assert(texts(seen@) =~= before.push(stores@[i as int].path@));
            assert(store_paths(upto) =~= before.push(stores@[i as int].path@));
            i = i + 1;
        }
        assert(stores@.take(i as int) =~= stores@);
        out
    }
}

/// Whatever the databases hold, no session of another agent is found in them.
pub proof fn no_other_agent_is_found(stores: Seq<SessionStore>)
    ensures
        forall|k: int|
            0 <= k < sessions_among(stores).len() ==> (#[trigger] sessions_among(stores)[k]).agent
                == Agent::ZCode,
    decreases stores.len(),
{
    if stores.len() > 0 {
        no_other_agent_is_found(stores.drop_last());
        let before = sessions_among(stores.drop_last());
        let all = sessions_among(stores);
        assert forall|k: int| 0 <= k < all.len() implies (#[trigger] all[k]).agent
            == Agent::ZCode by {
            if k < before.len() {
                assert(all[k] == before[k]);
            }
        }
    }
}

// ---------------------------------------------------------------------------
// What a database says
// ---------------------------------------------------------------------------

/// A part row belongs to the message that it names and to no other, with its own id and data; one
/// without a place stands first. A row that is no document belongs to none.
pub proof fn a_part_goes_to_its_message(rows: Seq<PartRow>, row: PartRow, message_id: Seq<char>)
    ensures
        parts_of(Seq::empty(), message_id) == Seq::<PartView>::empty(),
        row.message_id@ != message_id ==> parts_of(rows.push(row), message_id) == parts_of(
            rows,
            message_id,
        ),
        parsed(row.data@) is None ==> parts_of(rows.push(row), message_id) == parts_of(
            rows,
            message_id,
        ),
        row.message_id@ == message_id && parsed(row.data@) is Some ==> {
            let after = parts_of(rows.push(row), message_id);
            &&& after.len() == parts_of(rows, message_id).len() + 1
            &&& after.drop_last() == parts_of(rows, message_id)
            &&& after.last().id == row.id@
            &&& Some(after.last().data) == parsed(row.data@)
            &&& row.sequence is Some ==> after.last().sequence == row.sequence->0
            &&& row.sequence is None ==> after.last().sequence == 0
        },
{
    assert(rows.push(row).drop_last() =~= rows);
    assert(parts_of(rows.push(row), message_id).drop_last() =~= parts_of(rows, message_id)
        || parts_of(rows.push(row), message_id) == parts_of(rows, message_id));
}

/// Every message row that is a document is a message with its own id and data, in the order of the
/// rows. It has the parts of its id, unless an earlier message has that id.
pub proof fn a_message_row_is_a_message(
    parts: Seq<PartRow>,
    rows: Seq<MessageRow>,
    row: MessageRow,
)
    ensures
        conversation_of(parts, Seq::empty()) == Seq::<MessageView>::empty(),
        parsed(row.data@) is None ==> conversation_of(parts, rows.push(row)) == conversation_of(
            parts,
            rows,
        ),
        parsed(row.data@) is Some ==> {
            let before = conversation_of(parts, rows);
            let after = conversation_of(parts, rows.push(row));
            &&& after.len() == before.len() + 1
            &&& after.drop_last() == before
            &&& after.last().id == row.id@
            &&& Some(after.last().data) == parsed(row.data@)
            &&& (forall|i: int| 0 <= i < before.len() ==> (#[trigger] before[i]).id != row.id@)
                ==> after.last().parts == parts_of(parts, row.id@)
            &&& (exists|i: int| 0 <= i < before.len() && (#[trigger] before[i]).id == row.id@)
                ==> after.last().parts.len() == 0
        },
{
    assert(rows.push(row).drop_last() =~= rows);
    if parsed(row.data@) is Some {
        assert(conversation_of(parts, rows.push(row)).drop_last() =~= conversation_of(parts, rows));
    }
}

/// A part is prose where it is of type `text` and holds a text.
pub open spec fn is_prose(part: PartView, text: Seq<char>) -> bool {
    &&& part.data.field("type"@) == Some(Tree::Text("text"@))
    &&& part.data.field("text"@) == Some(Tree::Text(text))
}

/// Of the parts of a message only the texts are told, each with its own place.
pub proof fn only_texts_are_told(parts: Seq<PartView>, part: PartView, text: Seq<char>)
    ensures
        placed_texts(Seq::empty()) == Seq::<(int, Seq<char>)>::empty(),
        is_prose(part, text) ==> placed_texts(parts.push(part)) == placed_texts(parts).push(
            (part.sequence, text),
        ),
        (forall|t: Seq<char>| !(#[trigger] is_prose(part, t))) ==> placed_texts(parts.push(part))
            == placed_texts(parts),
{
    assert(parts.push(part).drop_last() =~= parts);
    match part.data.text_at("text"@) {
        Some(t) => {
            assert(part.data.field("text"@) == Some(Tree::Text(t)));
            if part.data.text_at("type"@) == Some("text"@) {
                assert(is_prose(part, t));
            }
        },
        None => {},
    }
}

proof fn placing_splits(s: Seq<(int, Seq<char>)>, x: (int, Seq<char>))
    requires
        in_order(s),
    ensures
        exists|i: int| #[trigger] between(s, x, i) && placed_in(s, x) == s.insert(i, x),
    decreases s.len(),
{
    if s.len() == 0 || s.last().0 <= x.0 {
        assert(between(s, x, s.len() as int));
        assert(s.push(x) =~= s.insert(s.len() as int, x));
    } else {
        placing_splits(s.drop_last(), x);
        let i = choose|i: int|
            #[trigger] between(s.drop_last(), x, i) && placed_in(s.drop_last(), x)
                == s.drop_last().insert(i, x);
        assert forall|k: int| 0 <= k < i implies (#[trigger] s[k]).0 <= x.0 by {
            assert(s.drop_last()[k] == s[k]);
        }
        assert forall|k: int| i <= k < s.len() implies (#[trigger] s[k]).0 > x.0 by {
            if k < s.len() - 1 {
                assert(s.drop_last()[k] == s[k]);
            }
        }
        assert(between(s, x, i));
        assert(placed_in(s, x) =~= s.insert(i, x));
    }
}

/// What stands before place `i` is placed no later than `x`, what stands from there on later.
pub open spec fn between(s: Seq<(int, Seq<char>)>, x: (int, Seq<char>), i: int) -> bool {
    &&& 0 <= i <= s.len()
    &&& forall|k: int| 0 <= k < i ==> (#[trigger] s[k]).0 <= x.0
    &&& forall|k: int| i <= k < s.len() ==> (#[trigger] s[k]).0 > x.0
}

/// A text comes behind all that came before it and is placed no later, and in front of all that
/// is placed later; the others keep their order.
pub proof fn a_text_comes_behind_its_equals(s: Seq<(int, Seq<char>)>, x: (int, Seq<char>))
    ensures
        exists|i: int|
            #[trigger] between(ordered(s), x, i) && ordered(s.push(x)) == ordered(s).insert(i, x),
{
    texts_are_told_in_order(s);
    assert(s.push(x).drop_last() =~= s);
    placing_splits(ordered(s), x);
}

/// The prose of a message is what its texts say in their order, a line end between two.
pub proof fn prose_is_the_texts_in_order(parts: Seq<PartView>)
    ensures
        exists|said: Seq<Seq<char>>|
            {
                &&& prose_of_parts(parts) == #[trigger] joined(said, "\n"@)
                &&& said.len() == ordered(placed_texts(parts)).len()
                &&& forall|i: int|
                    0 <= i < said.len() ==> #[trigger] said[i] == ordered(placed_texts(parts))[i].1
            },
{
    let said = ordered(placed_texts(parts)).map_values(|t: (int, Seq<char>)| t.1);
    assert(prose_of_parts(parts) == joined(said, "\n"@));
}

/// What stands in the semantics of a message.
pub open spec fn meant(data: Tree, key: Seq<char>, value: Seq<char>) -> bool {
    data.inner("semantics"@, key) == Some(Tree::Text(value))
}

/// The person's prompt.
pub open spec fn is_prompt(data: Tree) -> bool {
    meant(data, "origin"@, "real_user"@) && meant(data, "kind"@, "user_prompt"@)
}

/// The agent's reply.
pub open spec fn is_reply(data: Tree) -> bool {
    meant(data, "origin"@, "agent_runtime"@) && meant(data, "kind"@, "assistant_response"@)
}

/// A message is prose where it is the person's prompt or the agent's reply, and says anything; a
/// reply only once its completion has a time. It is told with its own id, prose and time.
pub proof fn what_a_message_tells(m: MessageView)
    ensures
        spoken_event(m) is Some <==> {
            &&& !blank(prose_of_parts(m.parts))
            &&& is_prompt(m.data) || (is_reply(m.data) && match m.data.inner(
                "time"@,
                "completed"@,
            ) {
                Some(t) => t != Tree::Null,
                None => false,
            })
        },
        spoken_event(m) matches Some(e) ==> {
            &&& e.source_event_id == Some(m.id)
            &&& e.source_position == "msg:"@ + m.id
            &&& e.text == Some(prose_of_parts(m.parts))
            &&& is_prompt(m.data) ==> e.kind == "user_message"@ && says_of(e, "user_prompt"@)
            &&& is_reply(m.data) ==> e.kind == "assistant_message"@ && says_of(
                e,
                "assistant_response"@,
            )
            &&& match m.data.inner("time"@, "created"@) {
                Some(Tree::Number(Some(ms))) => e.ts == rfc3339_of_millis(ms),
                _ => e.ts is None,
            }
        },
{
    reveal_strlit("user_prompt");
    reveal_strlit("assistant_response");
    assert("user_prompt"@.len() != "assistant_response"@.len());
    reveal_strlit("real_user");
    reveal_strlit("agent_runtime");
    assert("real_user"@.len() != "agent_runtime"@.len());
}

/// An event tells that it comes from ZCode, and what it was there.
pub open spec fn says_of(e: Event, kind: Seq<char>) -> bool {
    e.metadata == Tree::Object(
        seq![("agent"@, Tree::Text("zcode"@)), ("type"@, Tree::Text(kind))],
    )
}

/// A part marks a compaction.
pub open spec fn is_compaction(part: PartView) -> bool {
    part.data.field("type"@) == Some(Tree::Text("compaction"@))
}

/// Part `i` is the first that marks a compaction.
pub open spec fn first_mark(parts: Seq<PartView>, i: int) -> bool {
    &&& 0 <= i < parts.len()
    &&& is_compaction(parts[i])
    &&& forall|k: int| 0 <= k < i ==> !is_compaction(#[trigger] parts[k])
}

proof fn the_mark_is_first(parts: Seq<PartView>)
    ensures
        forall|i: int|
            #[trigger] first_mark(parts, i) ==> compaction_part(parts) == Some(parts[i]),
        (forall|i: int| 0 <= i < parts.len() ==> !is_compaction(#[trigger] parts[i]))
            ==> compaction_part(parts) is None,
    decreases parts.len(),
{
    if parts.len() > 0 && !is_compaction(parts[0]) {
        let rest = parts.drop_first();
        the_mark_is_first(rest);
        assert forall|i: int| #[trigger] first_mark(parts, i) implies compaction_part(parts)
            == Some(parts[i]) by {
            assert forall|k: int| 0 <= k < i - 1 implies !is_compaction(#[trigger] rest[k]) by {
                assert(rest[k] == parts[k + 1]);
            }
            assert(rest[i - 1] == parts[i]);
            assert(first_mark(rest, i - 1));
        }
        if forall|i: int| 0 <= i < parts.len() ==> !is_compaction(#[trigger] parts[i]) {
            assert forall|i: int| 0 <= i < rest.len() implies !is_compaction(
                #[trigger] rest[i],
            ) by {
                assert(rest[i] == parts[i + 1]);
            }
        }
    } else if parts.len() > 0 {
        assert forall|i: int| #[trigger] first_mark(parts, i) implies i == 0 by {
            if i > 0 {
                assert(!is_compaction(parts[0]));
            }
        }
    }
}

/// A message tells of a compaction where one of its parts marks one, with the id of the first
/// such part; it tells of it once.
pub proof fn a_compaction_is_told_once(m: MessageView, i: int)
    ensures
        (forall|k: int| 0 <= k < m.parts.len() ==> !is_compaction(#[trigger] m.parts[k]))
            ==> compaction_event(m) is None,
        first_mark(m.parts, i) ==> (compaction_event(m) matches Some(e) && {
            &&& e.source_event_id == Some(m.parts[i].id)
            &&& e.source_position == "part:"@ + m.parts[i].id
            &&& e.ts is None
            &&& e.kind == "compact"@
            &&& e.text == Some("conversation compacted"@)
            &&& says_of(e, "compaction"@)
        }),
{
    the_mark_is_first(m.parts);
}

/// Each message tells its prose and then its compaction, and nothing else, message after message.
pub proof fn messages_tell_in_their_order(before: Seq<MessageView>, m: MessageView)
    ensures
        events_of_all(Seq::empty()) == Seq::<Event>::empty(),
        events_of_all(before.push(m)) == events_of_all(before) + events_of_message(m),
        spoken_event(m) is None && compaction_event(m) is None ==> events_of_message(m).len() == 0,
        compaction_event(m) is None ==> (spoken_event(m) matches Some(e) ==> events_of_message(m)
            == seq![e]),
        spoken_event(m) is None ==> (compaction_event(m) matches Some(c) ==> events_of_message(m)
            == seq![c]),
        spoken_event(m) matches Some(e) ==> (compaction_event(m) matches Some(c)
            ==> events_of_message(m) == seq![e, c]),
{
    assert(before.push(m).drop_last() =~= before);
    match spoken_event(m) {
        Some(e) => {
            match compaction_event(m) {
                Some(c) => {
                    assert(seq![e].push(c) =~= seq![e, c]);
                },
                None => {},
            }
        },
        None => {
            match compaction_event(m) {
                Some(c) => {
                    assert(Seq::<Event>::empty().push(c) =~= seq![c]);
                },
                None => {},
            }
        },
    }
}

/// Message `i` is the first prompt that says anything.
pub open spec fn opens(messages: Seq<MessageView>, i: int) -> bool {
    &&& 0 <= i < messages.len()
    &&& asks_something(messages[i])
    &&& forall|k: int| 0 <= k < i ==> !asks_something(#[trigger] messages[k])
}

/// The message is a prompt that says anything.
pub open spec fn asks_something(m: MessageView) -> bool {
    is_prompt(m.data) && !blank(prose_of_parts(m.parts))
}

/// A conversation is shown by its first prompt that says anything.
pub proof fn the_first_prompt_is_shown(messages: Seq<MessageView>)
    ensures
        forall|i: int|
            #[trigger] opens(messages, i) ==> first_prompt(messages) == Some(
                shortened(prose_of_parts(messages[i].parts), 400),
            ),
        (forall|i: int| 0 <= i < messages.len() ==> !asks_something(#[trigger] messages[i]))
            ==> first_prompt(messages) is None,
    decreases messages.len(),
{
    reveal_strlit("user_prompt");
    reveal_strlit("assistant_response");
    assert("user_prompt"@.len() != "assistant_response"@.len());
    if messages.len() > 0 {
        let rest = messages.drop_first();
        the_first_prompt_is_shown(rest);
        assert forall|i: int| #[trigger] opens(messages, i) implies first_prompt(messages) == Some(
            shortened(prose_of_parts(messages[i].parts), 400),
        ) by {
            if i > 0 {
                assert(!asks_something(messages[0]));
                assert forall|k: int| 0 <= k < i - 1 implies !asks_something(
                    #[trigger] rest[k],
                ) by {
                    assert(rest[k] == messages[k + 1]);
                }
                assert(rest[i - 1] == messages[i]);
                assert(opens(rest, i - 1));
            }
        }
        if forall|i: int| 0 <= i < messages.len() ==> !asks_something(#[trigger] messages[i]) {
            assert(!asks_something(messages[0]));
            assert forall|i: int| 0 <= i < rest.len() implies !asks_something(
                #[trigger] rest[i],
            ) by {
                assert(rest[i] == messages[i + 1]);
            }
        }
    }
}

/// A session is known by what its row says and by its first prompt; it has no title of its own.
pub proof fn a_session_is_what_its_row_says(
    row: SessionRow,
    path: Seq<char>,
    messages: Seq<MessageView>,
)
    ensures
        ({
            let s = session_of(row, path, messages);
            &&& s.agent == Agent::ZCode
            &&& s.agent_session_id == row.id@
            &&& s.path == path
            &&& row.directory is None ==> s.cwd is None
            &&& row.directory matches Some(d) ==> s.cwd == (if d@.len() > 0 {
                Some(d@)
            } else {
                None
            })
            &&& row.time_created is None ==> s.started_at is None
            &&& row.time_created matches Some(t) ==> s.started_at == rfc3339_of_millis(t)
            &&& row.time_updated is None ==> s.last_activity_at is None
            &&& row.time_updated matches Some(t) ==> s.last_activity_at == rfc3339_of_millis(t)
            &&& s.native_title is None
            &&& s.first_user_text == first_prompt(messages)
            &&& s.first_agent_text is None
            &&& row.parent_id is None ==> s.parent_agent_session_id is None
            &&& row.parent_id matches Some(p) ==> s.parent_agent_session_id == Some(p@)
        }),
{
}

/// A database is read whole every time. It is a new generation only where it was read before and
/// another file stands in its place.
pub proof fn a_database_is_read_whole(
    identity: Seq<char>,
    size: int,
    mtime: Option<i64>,
    cursor: SessionMemberCursor,
)
    ensures
        ({
            let after = store_after(identity, size, mtime, cursor);
            &&& after.file_identity == identity
            &&& after.byte_offset == size
            &&& after.last_seen_size == size
            &&& after.mtime == mtime
            &&& after.start_byte_offset == 0
            &&& after.prefix_hash.len() == 0
            &&& cursor.fresh() ==> after.generation == 0
            &&& !cursor.fresh() && cursor.source_file_identity@ == identity ==> after.generation
                == cursor.generation
            &&& !cursor.fresh() && cursor.source_file_identity@ != identity ==> after.generation
                == cursor.generation + 1
        }),
{
}

/// A root that is a file is itself the database; otherwise the database is the file
/// `cli/db/db.sqlite` under it, where there is one.
pub proof fn where_the_database_stands(root: Seq<char>, files: Seq<Seq<char>>)
    ensures
        database_in(root) == child_of(child_of(child_of(root, "cli"@), "db"@), "db.sqlite"@),
        files.contains(root) ==> database_of(root, files) == Some(root),
        !files.contains(root) && files.contains(database_in(root)) ==> database_of(root, files)
            == Some(database_in(root)),
        !files.contains(root) && !files.contains(database_in(root)) ==> database_of(
            root,
            files,
        ) is None,
{
}

/// A database has been looked at.
pub open spec fn looked_at(stores: Seq<SessionStore>, path: Seq<char>) -> bool {
    exists|i: int| 0 <= i < stores.len() && (#[trigger] stores[i]).path@ == path
}

/// Each session of a database is found, in order; a database that was looked at already brings
/// nothing more.
pub proof fn each_session_is_found(stores: Seq<SessionStore>, store: SessionStore)
    ensures
        sessions_among(Seq::empty()) == Seq::<FoundSession>::empty(),
        looked_at(stores, store.path@) ==> sessions_among(stores.push(store)) == sessions_among(
            stores,
        ),
        !looked_at(stores, store.path@) ==> sessions_among(stores.push(store)) == sessions_among(
            stores,
        ) + sessions_of(store.path@, store.sessions@),
        sessions_of(store.path@, store.sessions@).len() == store.sessions@.len(),
        forall|i: int|
            0 <= i < store.sessions@.len() ==> #[trigger] sessions_of(
                store.path@,
                store.sessions@,
            )[i] == session_of(
                store.sessions@[i].row,
                store.path@,
                conversation_of(store.sessions@[i].parts@, store.sessions@[i].messages@),
            ),
{
    assert(stores.push(store).drop_last() =~= stores);
    let paths = store_paths(stores);
    assert(paths.contains(store.path@) <==> looked_at(stores, store.path@)) by {
        if paths.contains(store.path@) {
            let i = choose|i: int| 0 <= i < paths.len() && paths[i] == store.path@;
            assert(stores[i].path@ == store.path@);
        }
        if looked_at(stores, store.path@) {
            let i = choose|i: int|
                0 <= i < stores.len() && (#[trigger] stores[i]).path@ == store.path@;
            assert(paths[i] == store.path@);
        }
    }
}

} // verus!
