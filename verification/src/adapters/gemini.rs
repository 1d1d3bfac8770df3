//! Gemini CLI: `tmp/<project>/chats/session-*.jsonl`.
//!
//! A recording is a log of operations, not a list of messages: a message is added or replaced by
//! its id, a checkpoint replaces the whole conversation, a rewind cuts it. What is read is the
//! conversation that the log ends on. The session id inside a recording is no identity (every
//! recording of the server names the same one), so the file name is. Nothing is launched.
use crate::adapters::content::{first_solid, prose, prose_of, read_records, records_in, Blocks};
use crate::adapters::events::{
    event_metadata, metadata_of_event, DiscoveredSession, Event, EventDelta, FoundSession,
    ParsedEvent, ReadDelta,
};
use crate::adapters::reader::{replay_cursor_update, replayed_source, SourceFile};
use crate::adapters::{shortened, truncate_text, AgentCommand};
use crate::bytes::{decode_lossy, decode_strict, lossy_text};
use crate::domain::{copy_text, Agent, SessionMemberCursor};
use crate::error::{other, AppError, Fault};
use crate::json::{copy_json, parse, parsed, trees, Json, Tree};
use crate::paths::{child_of, child_path, file_stem, stem_of, FoundFile};
use crate::text::{
    blank, chars_of, decimal, decimal_of, ends, ends_with, is_blank, is_listed, lines, lines_of,
    same, starts, starts_with, texts, trim, trimmed,
};
use vstd::prelude::*;
use vstd::utf8::{decode_utf8, valid_utf8};

verus! {

/// The adapter for the Gemini CLI.
pub struct GeminiAdapter;

// ---------------------------------------------------------------------------
// The log
// ---------------------------------------------------------------------------

/// Where the first message with an id stands.
pub open spec fn place_of(messages: Seq<Tree>, id: Seq<char>) -> Option<int>
    decreases messages.len(),
{
    if messages.len() == 0 {
        None
    } else if messages[0].text_at("id"@) == Some(id) {
        Some(0)
    } else {
        match place_of(messages.drop_first(), id) {
            Some(i) => Some(i + 1),
            None => None,
        }
    }
}

/// Where a message stands is a place of the conversation, and the message has the id.
pub proof fn place_is_in_range(messages: Seq<Tree>, id: Seq<char>)
    ensures
        place_of(messages, id) matches Some(i) ==> 0 <= i < messages.len() && messages[i].text_at(
            "id"@,
        ) == Some(id),
    decreases messages.len(),
{
    if messages.len() > 0 && messages[0].text_at("id"@) != Some(id) {
        place_is_in_range(messages.drop_first(), id);
    }
}

/// The conversation after a rewind: before the message it names, or empty where that message is
/// gone.
pub open spec fn rewound(messages: Seq<Tree>, id: Seq<char>) -> Seq<Tree> {
    match place_of(messages, id) {
        Some(i) => messages.take(i),
        None => Seq::empty(),
    }
}

/// The conversation after a message: in place of the message with its id, or at the end.
pub open spec fn recorded(messages: Seq<Tree>, id: Seq<char>, v: Tree) -> Seq<Tree> {
    match place_of(messages, id) {
        Some(i) => messages.update(i, v),
        None => messages.push(v),
    }
}

/// The conversation after one more operation.
pub open spec fn operated(messages: Seq<Tree>, v: Tree) -> Seq<Tree> {
    match v.text_at("$rewindTo"@) {
        Some(id) => rewound(messages, id),
        None => match v.field("$set"@) {
            Some(set) => match set.items_at("messages"@) {
                Some(checkpoint) => checkpoint,
                None => messages,
            },
            None => match v.text_at("id"@) {
                Some(id) => recorded(messages, id, v),
                None => messages,
            },
        },
    }
}

/// The operations among the lines of a log: those that are documents.
pub open spec fn operations_in(ls: Seq<Seq<char>>) -> Seq<Tree>
    decreases ls.len(),
{
    if ls.len() == 0 {
        Seq::empty()
    } else {
        let before = operations_in(ls.drop_last());
        match parsed(trimmed(ls.last())) {
            Some(v) if !blank(ls.last()) => before.push(v),
            _ => before,
        }
    }
}

/// The conversation that a log of these operations ends on.
pub open spec fn replayed(operations: Seq<Tree>) -> Seq<Tree>
    decreases operations.len(),
{
    if operations.len() == 0 {
        Seq::empty()
    } else {
        operated(replayed(operations.drop_last()), operations.last())
    }
}

fn position_of(messages: &Vec<Json>, id: &str) -> (r: Option<usize>)
    ensures
        match r {
            Some(i) => place_of(trees(messages@), id@) == Some(i as int) && i < messages@.len(),
            None => place_of(trees(messages@), id@) is None,
        },
{
    let ghost all = trees(messages@);
    let mut i: usize = 0;
    assert(all.skip(0) =~= all);
    while i < messages.len()
        invariant
            i <= messages@.len(),
            all == trees(messages@),
            place_of(all, id@) == (match place_of(all.skip(i as int), id@) {
                Some(k) => Some(k + i),
                None => None,
            }),
        decreases messages@.len() - i,
    {
        assert(all.skip(i as int)[0] == messages@[i as int].tree());
        assert(all.skip(i as int).drop_first() =~= all.skip(i + 1));
        if messages[i].text_is("id", id) {
            return Some(i);
        }
        i = i + 1;
    }
    None
}

fn copy_all(v: &Vec<Json>) -> (r: Vec<Json>)
    ensures
        trees(r@) == trees(v@),
{
    let mut out: Vec<Json> = Vec::new();
    let mut i: usize = 0;
    while i < v.len()
        invariant
            i <= v@.len(),
            out@.len() == i,
            forall|k: int| 0 <= k < i ==> #[trigger] out@[k].tree() == v@[k].tree(),
        decreases v@.len() - i,
    {
        out.push(copy_json(&v[i]));
        i = i + 1;
    }
    assert(trees(out@) =~= trees(v@));
    out
}

fn operate(messages: &mut Vec<Json>, v: &Json)
    ensures
        trees(final(messages)@) == operated(trees(old(messages)@), v.tree()),
{
    let ghost before = trees(messages@);
    match v.string_at("$rewindTo") {
        Some(id) => {
            match position_of(messages, id.as_str()) {
                Some(i) => {
                    messages.truncate(i);
                    assert(trees(messages@) =~= before.take(i as int));
                },
                None => {
                    messages.clear();
                    assert(trees(messages@) =~= Seq::<Tree>::empty());
                },
            }
            return;
        },
        None => {},
    }
    match v.get("$set") {
        Some(set) => {
            match set.items_at("messages") {
                Some(checkpoint) => {
                    *messages = copy_all(checkpoint);
                },
                None => {},
            }
            return;
        },
        None => {},
    }
    match v.string_at("id") {
        Some(id) => {
            let ghost tree = v.tree();
            match position_of(messages, id.as_str()) {
                Some(i) => {
                    messages.set(i, copy_json(v));
                    assert(trees(messages@) =~= before.update(i as int, tree));
                },
                None => {
                    messages.push(copy_json(v));
                    assert(trees(messages@) =~= before.push(tree));
                },
            }
        },
        None => {},
    }
}

/// The operations of a recording.
pub fn read_operations(text: &str) -> (r: Vec<Json>)
    ensures
        trees(r@) == operations_in(lines_of(text@)),
{
    let ls = lines(text);
    let ghost all = texts(ls@);
    let mut out: Vec<Json> = Vec::new();
    let mut i: usize = 0;
    assert(all.take(0) =~= Seq::<Seq<char>>::empty());
    assert(trees(out@) =~= Seq::<Tree>::empty());
    while i < ls.len()
        invariant
            i <= ls@.len(),
            all == texts(ls@),
            trees(out@) == operations_in(all.take(i as int)),
        decreases ls@.len() - i,
    {
        assert(all.take(i + 1).drop_last() =~= all.take(i as int));
        assert(all.take(i + 1).last() == ls@[i as int]@);
        let line = trim(ls[i].as_str());
        if !line.as_str().is_empty() {
            match parse(line.as_str()) {
                Some(v) => {
                    let ghost before = trees(out@);
                    out.push(v);
                    assert(trees(out@) =~= before.push(v.tree()));
                },
                None => {},
            }
        }
        i = i + 1;
    }
    assert(all.take(i as int) =~= all);
    out
}

/// The conversation that a recording ends on.
pub fn replay(text: &str) -> (r: Vec<Json>)
    ensures
        trees(r@) == replayed(operations_in(lines_of(text@))),
{
    replay_all(&read_operations(text))
}

/// The conversation that a log of these operations ends on.
pub fn replay_all(operations: &Vec<Json>) -> (r: Vec<Json>)
    ensures
        trees(r@) == replayed(trees(operations@)),
{
    let ghost all = trees(operations@);
    let mut messages: Vec<Json> = Vec::new();
    let mut i: usize = 0;
    assert(all.take(0) =~= Seq::<Tree>::empty());
    assert(trees(messages@) =~= Seq::<Tree>::empty());
    while i < operations.len()
        invariant
            i <= operations@.len(),
            all == trees(operations@),
            trees(messages@) == replayed(all.take(i as int)),
        decreases operations@.len() - i,
    {
        assert(all.take(i + 1).drop_last() =~= all.take(i as int));
        assert(all.take(i + 1).last() == operations@[i as int].tree());
        operate(&mut messages, &operations[i]);
        i = i + 1;
    }
    assert(all.take(i as int) =~= all);
    messages
}

/// The document that holds a recording's metadata: a metadata record, or an update of it that is
/// no checkpoint.
pub open spec fn metadata_in(v: Tree) -> Option<Tree> {
    match v.field("$set"@) {
        Some(set) => if set.has("messages"@) {
            None
        } else {
            Some(set)
        },
        None => if v.has("$rewindTo"@) || v.has("id"@) {
            None
        } else {
            Some(v)
        },
    }
}

/// The last value that the metadata among records gives a field.
pub open spec fn metadata_of(records: Seq<Tree>, field: Seq<char>) -> Option<Seq<char>>
    decreases records.len(),
{
    if records.len() == 0 {
        None
    } else {
        let before = metadata_of(records.drop_last(), field);
        match metadata_in(records.last()) {
            None => before,
            Some(holder) => match holder.text_at(field) {
                Some(value) => Some(value),
                None => before,
            },
        }
    }
}

/// The last value that a recording's metadata gives a field.
pub fn metadata_field(text: &str, field: &str) -> (r: Option<String>)
    ensures
        r.deep_view() == metadata_of(records_in(lines_of(text@)), field@),
{
    metadata_among(&read_records(&lines(text)), field)
}

/// The last value that the metadata among records gives a field.
pub fn metadata_among(records: &Vec<Json>, field: &str) -> (r: Option<String>)
    ensures
        r.deep_view() == metadata_of(trees(records@), field@),
{
    let ghost all = trees(records@);
    let mut found: Option<String> = None;
    let mut i: usize = 0;
    assert(all.take(0) =~= Seq::<Tree>::empty());
    while i < records.len()
        invariant
            i <= records@.len(),
            all == trees(records@),
            found.deep_view() == metadata_of(all.take(i as int), field@),
        decreases records@.len() - i,
    {
        assert(all.take(i + 1).drop_last() =~= all.take(i as int));
        assert(all.take(i + 1).last() == records@[i as int].tree());
        let v = &records[i];
        let value: Option<String> = match v.get("$set") {
            Some(set) => {
                if set.has("messages") {
                    None
                } else {
                    set.string_at(field)
                }
            },
            None => {
                if v.has("$rewindTo") || v.has("id") {
                    None
                } else {
                    v.string_at(field)
                }
            },
        };
        if value.is_some() {
            found = value;
        }
        i = i + 1;
    }
    assert(all.take(i as int) =~= all);
    found
}

// ---------------------------------------------------------------------------
// Events
// ---------------------------------------------------------------------------

/// What a type of message is as an event. Notices of the program itself are none.
pub open spec fn kind_named(message_type: Seq<char>) -> Option<Seq<char>> {
    if message_type == "user"@ {
        Some("user_message"@)
    } else if message_type == "gemini"@ {
        Some("assistant_message"@)
    } else {
        None
    }
}

/// What a type of message is as an event.
pub fn kind_of(message_type: &str) -> (r: Option<&'static str>)
    ensures
        r.deep_view() == kind_named(message_type@),
{
    if same(message_type, "user") {
        Some("user_message")
    } else if same(message_type, "gemini") {
        Some("assistant_message")
    } else {
        None
    }
}

/// The prose of a content: a text, a part, or several parts.
pub open spec fn part_prose(content: Tree) -> Seq<char> {
    match content {
        Tree::Object(_) => match content.text_at("text"@) {
            Some(t) => t,
            None => Seq::empty(),
        },
        _ => prose(content, Blocks::Any),
    }
}

/// The prose of a content.
pub fn content_text(content: Option<&Json>) -> (r: String)
    ensures
        r@ == part_prose(
            match content {
                Some(c) => c.tree(),
                None => Tree::Null,
            },
        ),
{
    match content {
        Some(c) => {
            if c.is_object() {
                match c.string_at("text") {
                    Some(t) => t,
                    None => String::new(),
                }
            } else {
                prose_of(Some(c), Blocks::Any)
            }
        },
        None => String::new(),
    }
}

/// Context that the program wrote in the user's name.
pub open spec fn machine_context(text: Seq<char>) -> bool {
    text.len() > 0 && text[0] == '<'
}

/// Whether a text is context that the program wrote in the user's name.
pub fn is_machine_context(text: &str) -> (r: bool)
    ensures
        r == machine_context(text@),
{
    let v = chars_of(text);
    v.len() > 0 && v[0] == '<'
}

/// The event that message number `i` is.
pub open spec fn event_of(i: int, m: Tree) -> Option<Event> {
    let message_type = match m.text_at("type"@) {
        Some(t) => t,
        None => Seq::empty(),
    };
    let text = part_prose(m.field_or_null("content"@));
    match kind_named(message_type) {
        None => None,
        Some(kind) => if blank(text) || (kind == "user_message"@ && machine_context(text)) {
            None
        } else {
            Some(
                Event {
                    source_event_id: m.text_at("id"@),
                    source_position: "msg:"@ + decimal((i + 1) as nat),
                    ts: m.text_at("timestamp"@),
                    kind,
                    text: Some(text),
                    metadata: event_metadata("gemini"@, message_type),
                },
            )
        },
    }
}

/// The events of a conversation.
pub open spec fn events_of(messages: Seq<Tree>) -> Seq<Event>
    decreases messages.len(),
{
    if messages.len() == 0 {
        Seq::empty()
    } else {
        let before = events_of(messages.drop_last());
        match event_of(messages.len() - 1, messages.last()) {
            Some(e) => before.push(e),
            None => before,
        }
    }
}

fn event_of_message(i: usize, m: &Json) -> (r: Option<ParsedEvent>)
    requires
        i < usize::MAX,
    ensures
        r.deep_view() == event_of(i as int, m.tree()),
{
    let message_type: String = match m.string_at("type") {
        Some(t) => t,
        None => String::new(),
    };
    proof {
        reveal_strlit("user_message");
        reveal_strlit("assistant_message");
        assert("user_message"@.len() == 12 && "assistant_message"@.len() == 17);
    }
    match kind_of(message_type.as_str()) {
        None => None,
        Some(kind) => {
            let text = content_text(m.get("content"));
            if is_blank(text.as_str()) || (same(kind, "user_message") && is_machine_context(
                text.as_str(),
            )) {
                return None;
            }
            let mut position: String = "msg:".to_owned();
            position.append(decimal_of((i + 1) as u64).as_str());
            Some(
                ParsedEvent {
                    source_event_id: m.string_at("id"),
                    source_position: position,
                    ts: m.string_at("timestamp"),
                    kind: kind.to_owned(),
                    text: Some(text),
                    metadata: metadata_of_event("gemini", message_type.as_str()),
                },
            )
        },
    }
}

/// The events of a conversation, in order.
pub fn conversation_events(messages: &Vec<Json>) -> (r: Vec<ParsedEvent>)
    ensures
        r.deep_view() == events_of(trees(messages@)),
{
    let ghost all = trees(messages@);
    let mut out: Vec<ParsedEvent> = Vec::new();
    let mut i: usize = 0;
    assert(all.take(0) =~= Seq::<Tree>::empty());
    assert(out.deep_view() =~= Seq::<Event>::empty());
    while i < messages.len()
        invariant
            i <= messages@.len(),
            all == trees(messages@),
            out.deep_view() == events_of(all.take(i as int)),
        decreases messages@.len() - i,
    {
        assert(all.take(i + 1).drop_last() =~= all.take(i as int));
        assert(all.take(i + 1).last() == messages@[i as int].tree());
        match event_of_message(i, &messages[i]) {
            Some(e) => {
                let ghost before = out.deep_view();
                out.push(e);
                assert(out.deep_view() =~= before.push(e.deep_view()));
            },
            None => {},
        }
        i = i + 1;
    }
    assert(all.take(i as int) =~= all);
    out
}

// ---------------------------------------------------------------------------
// Discovery
// ---------------------------------------------------------------------------

/// The file is a recording by its place and its name.
pub open spec fn recording_file(file: FoundFile) -> bool {
    &&& file.ancestors@.len() >= 1
    &&& file.ancestors@[0].name@ == "chats"@
    &&& starts(file.name@, "session-"@)
    &&& ends(file.name@, ".jsonl"@)
}

/// Whether a file is a recording by its place and its name.
pub fn is_recording(file: &FoundFile) -> (r: bool)
    ensures
        r == recording_file(*file),
{
    file.ancestors.len() >= 1 && same(file.ancestors[0].name.as_str(), "chats") && starts_with(
        file.name.as_str(),
        "session-",
    ) && ends_with(file.name.as_str(), ".jsonl")
}

/// The record that a recording opens with.
pub open spec fn metadata_record(v: Tree) -> bool {
    v.has("sessionId"@) && v.has("projectHash"@) && v.has("startTime"@)
}

/// Whether a document is the record that a recording opens with.
pub fn is_metadata_record(v: &Json) -> (r: bool)
    ensures
        r == metadata_record(v.tree()),
{
    v.has("sessionId") && v.has("projectHash") && v.has("startTime")
}

/// The text of the first event of a kind.
pub open spec fn first_text_of(events: Seq<Event>, kind: Seq<char>) -> Option<Seq<char>>
    decreases events.len(),
{
    if events.len() == 0 {
        None
    } else if events[0].kind == kind {
        events[0].text
    } else {
        first_text_of(events.drop_first(), kind)
    }
}

fn first_user_text(events: &Vec<ParsedEvent>) -> (r: Option<String>)
    ensures
        r.deep_view() == first_text_of(events.deep_view(), "user_message"@),
{
    let ghost all = events.deep_view();
    let mut i: usize = 0;
    assert(all.skip(0) =~= all);
    while i < events.len()
        invariant
            i <= events@.len(),
            all == events.deep_view(),
            first_text_of(all, "user_message"@) == first_text_of(
                all.skip(i as int),
                "user_message"@,
            ),
        decreases events@.len() - i,
    {
        assert(all.skip(i as int)[0] == events@[i as int].deep_view());
        assert(all.skip(i as int).drop_first() =~= all.skip(i + 1));
        if same(events[i].kind.as_str(), "user_message") {
            return copy_text(&events[i].text);
        }
        i = i + 1;
    }
    None
}

/// The working directory that the marker beside the recordings names.
pub open spec fn marked_cwd(marker: Option<Seq<char>>) -> Option<Seq<char>> {
    match marker {
        Some(s) if !blank(s) => Some(trimmed(s)),
        _ => None,
    }
}

/// The first line of a text that is not blank is the record that a recording opens with.
pub open spec fn opens_with_metadata(text: Seq<char>) -> bool {
    match first_solid(lines_of(text)) {
        None => false,
        Some(line) => match parsed(line) {
            None => false,
            Some(v) => metadata_record(v),
        },
    }
}

/// The session that a recording is. `marker` is what the marker beside the recordings holds.
pub open spec fn session_of(
    file: FoundFile,
    text: Seq<char>,
    marker: Option<Seq<char>>,
) -> FoundSession {
    session_with(file, operations_in(lines_of(text)), records_in(lines_of(text)), marker)
}

/// The session that a recording of these operations is, with its metadata among `records`.
pub open spec fn session_with(
    file: FoundFile,
    operations: Seq<Tree>,
    records: Seq<Tree>,
    marker: Option<Seq<char>>,
) -> FoundSession {
    FoundSession {
        agent: Agent::Gemini,
        agent_session_id: stem_of(file.name@),
        path: file.path@,
        cwd: marked_cwd(marker),
        started_at: metadata_of(records, "startTime"@),
        last_activity_at: file.modified.deep_view(),
        native_title: None,
        first_user_text: match first_text_of(
            events_of(replayed(operations)),
            "user_message"@,
        ) {
            Some(t) => Some(shortened(t, 400)),
            None => None,
        },
        first_agent_text: None,
        parent_agent_session_id: None,
    }
}

impl GeminiAdapter {
    /// The session that a recording is, where its content is one. `text` is the text of the
    /// file, `marker` what the marker beside the recordings holds.
    pub fn parse_session_file(file: &FoundFile, text: &str, marker: &Option<String>) -> (r: Option<
        DiscoveredSession,
    >)
        ensures
            r.deep_view() == (if opens_with_metadata(text@) {
                Some(session_of(*file, text@, marker.deep_view()))
            } else {
                None
            }),
    {
        let ls = lines(text);
        match crate::adapters::content::read_first_json_line(&ls) {
            Some(v) => {
                if !is_metadata_record(&v) {
                    return None;
                }
            },
            None => {
                return None;
            },
        }
        Some(
            GeminiAdapter::session_from(file, &read_operations(text), &read_records(&ls), marker),
        )
    }

    /// The session that a recording of these operations is, with its metadata among `records`.
    pub fn session_from(
        file: &FoundFile,
        operations: &Vec<Json>,
        records: &Vec<Json>,
        marker: &Option<String>,
    ) -> (r: DiscoveredSession)
        ensures
            r.deep_view() == session_with(
                *file,
                trees(operations@),
                trees(records@),
                marker.deep_view(),
            ),
    {
        let events = conversation_events(&replay_all(operations));
        let first: Option<String> = match first_user_text(&events) {
            Some(t) => Some(truncate_text(t.as_str(), 400)),
            None => None,
        };
        let cwd: Option<String> = match marker {
            Some(s) => {
                let t = trim(s.as_str());
                if t.as_str().is_empty() {
                    None
                } else {
                    Some(t)
                }
            },
            None => None,
        };
        DiscoveredSession {
            agent: Agent::Gemini,
            agent_session_id: file_stem(file.name.as_str()),
            path: file.path.clone(),
            cwd,
            started_at: metadata_among(records, "startTime"),
            last_activity_at: copy_text(&file.modified),
            native_title: None,
            first_user_text: first,
            first_agent_text: None,
            parent_agent_session_id: None,
        }
    }

    /// The session that discovery finds in a file.
    pub fn discover_session(file: &FoundFile, text: &str, marker: &Option<String>) -> (r: Option<
        DiscoveredSession,
    >)
        ensures
            r.deep_view() == (if recording_file(*file) && opens_with_metadata(text@) {
                Some(session_of(*file, text@, marker.deep_view()))
            } else {
                None
            }),
    {
        if !is_recording(file) {
            return None;
        }
        GeminiAdapter::parse_session_file(file, text, marker)
    }

    /// Reads a recording: the conversation that it ends on.
    pub fn read_delta(file: &SourceFile, cursor: &SessionMemberCursor) -> (r: ReadDelta)
        requires
            cursor.generation < i64::MAX,
        ensures
            r.deep_view() == (EventDelta {
                events: events_of(replayed(operations_in(lines_of(lossy_text(file.data@))))),
                source: Some(replayed_source(*file, *cursor)),
            }),
    {
        let text = decode_lossy(file.data.as_slice());
        ReadDelta {
            events: conversation_events(&replay(text.as_str())),
            source: Some(replay_cursor_update(file, cursor)),
        }
    }

    /// A new session cannot be launched.
    pub fn build_new_command() -> (r: Result<AgentCommand, AppError>)
        ensures
            r matches Err(e) && e.deep_view() == Fault::Other(
                "Gemini CLI 未安装，NoEnding 只读取它的历史会话"@,
            ),
    {
        Err(other("Gemini CLI 未安装，NoEnding 只读取它的历史会话"))
    }

    /// A session cannot be continued.
    pub fn build_resume_command() -> (r: Result<AgentCommand, AppError>)
        ensures
            r matches Err(e) && e.deep_view() == Fault::Other(
                "Gemini CLI 的 --resume 只接受 latest 或序号，不能用会话 id 恢复"@,
            ),
    {
        Err(other("Gemini CLI 的 --resume 只接受 latest 或序号，不能用会话 id 恢复"))
    }

    /// One answer cannot be asked for.
    pub fn build_exec_command() -> (r: Result<AgentCommand, AppError>)
        ensures
            r matches Err(e) && e.deep_view() == Fault::Other(
                "Gemini CLI 未安装，NoEnding 只读取它的历史会话"@,
            ),
    {
        Err(other("Gemini CLI 未安装，NoEnding 只读取它的历史会话"))
    }
}

// ---------------------------------------------------------------------------
// Laws
// ---------------------------------------------------------------------------

/// The line is a checkpoint with these messages.
pub open spec fn checkpoint_line(line: Seq<char>, messages: Seq<Tree>) -> bool {
    &&& !blank(line)
    &&& parsed(trimmed(line)) matches Some(v) && {
        &&& v.text_at("$rewindTo"@) is None
        &&& v.field("$set"@) matches Some(set) && set.items_at("messages"@) == Some(messages)
    }
}

/// A checkpoint forgets everything before it: the log ends where it would with any other past.
pub proof fn a_checkpoint_forgets_the_past(
    past: Seq<Seq<char>>,
    other_past: Seq<Seq<char>>,
    line: Seq<char>,
    messages: Seq<Tree>,
    rest: Seq<Seq<char>>,
)
    ensures
        checkpoint_line(line, messages) ==> replayed(
            operations_in(past + seq![line] + rest),
        ) == replayed(operations_in(other_past + seq![line] + rest)),
        checkpoint_line(line, messages) ==> replayed(operations_in(past + seq![line])) == messages,
    decreases rest.len(),
{
    let a = past + seq![line] + rest;
    let b = other_past + seq![line] + rest;
    assert((past + seq![line]).drop_last() =~= past);
    assert((past + seq![line]).last() == line);
    an_operation_comes_last(past, line);
    if rest.len() == 0 {
        assert(a =~= past + seq![line]);
        assert(b =~= other_past + seq![line]);
        assert(b.drop_last() =~= other_past);
        an_operation_comes_last(other_past, line);
    } else {
        a_checkpoint_forgets_the_past(past, other_past, line, messages, rest.drop_last());
        assert(a =~= (past + seq![line] + rest.drop_last()) + seq![rest.last()]);
        assert(b =~= (other_past + seq![line] + rest.drop_last()) + seq![rest.last()]);
        an_operation_comes_last(past + seq![line] + rest.drop_last(), rest.last());
        an_operation_comes_last(other_past + seq![line] + rest.drop_last(), rest.last());
    }
}

proof fn an_operation_comes_last(ls: Seq<Seq<char>>, line: Seq<char>)
    ensures
        replayed(operations_in(ls + seq![line])) == (match parsed(trimmed(line)) {
            Some(v) if !blank(line) => operated(replayed(operations_in(ls)), v),
            _ => replayed(operations_in(ls)),
        }),
{
    assert((ls + seq![line]).drop_last() =~= ls);
    match parsed(trimmed(line)) {
        Some(v) => {
            assert(operations_in(ls).push(v).drop_last() =~= operations_in(ls));
        },
        None => {},
    }
}

/// No two messages have the same id.
pub open spec fn distinct_ids(messages: Seq<Tree>) -> bool {
    forall|i: int, j: int|
        0 <= i < j < messages.len() && #[trigger] messages[i].text_at("id"@) is Some
            ==> messages[i].text_at("id"@) != #[trigger] messages[j].text_at("id"@)
}

proof fn place_is_first(messages: Seq<Tree>, id: Seq<char>)
    ensures
        place_of(messages, id) is None ==> forall|i: int|
            0 <= i < messages.len() ==> #[trigger] messages[i].text_at("id"@) != Some(id),
    decreases messages.len(),
{
    if messages.len() > 0 && messages[0].text_at("id"@) != Some(id) {
        place_is_first(messages.drop_first(), id);
        assert forall|i: int|
            place_of(messages, id) is None && 0 <= i
                < messages.len() implies #[trigger] messages[i].text_at("id"@) != Some(id) by {
            if i > 0 {
                assert(messages[i] == messages.drop_first()[i - 1]);
            }
        }
    }
}

/// No operation makes two messages of one id, unless a checkpoint already holds them: replaying
/// a log never tells the same turn twice.
pub proof fn an_operation_keeps_ids_distinct(messages: Seq<Tree>, v: Tree)
    requires
        distinct_ids(messages),
        v.field("$set"@) matches Some(set) ==> (set.items_at("messages"@) matches Some(checkpoint)
            ==> distinct_ids(checkpoint)),
    ensures
        distinct_ids(operated(messages, v)),
{
    match v.text_at("$rewindTo"@) {
        Some(id) => {
            place_is_in_range(messages, id);
        },
        None => match v.text_at("id"@) {
            Some(id) => {
                place_is_in_range(messages, id);
                place_is_first(messages, id);
            },
            None => {},
        },
    }
}

// ---------------------------------------------------------------------------
// Discovery among files
// ---------------------------------------------------------------------------

/// Where recordings stand under a root: in its `tmp`, where it has one. The rest of the root is
/// not looked at.
pub open spec fn chat_root(root: Seq<char>, dirs: Seq<Seq<char>>) -> Seq<char> {
    if dirs.contains(child_of(root, "tmp"@)) {
        child_of(root, "tmp"@)
    } else {
        root
    }
}

/// Where recordings stand under roots. `dirs` are the directories that there are.
pub fn chat_roots(roots: &Vec<String>, dirs: &Vec<String>) -> (r: Vec<String>)
    ensures
        texts(r@) == texts(roots@).map_values(|d: Seq<char>| chat_root(d, texts(dirs@))),
{
    let ghost known = texts(dirs@);
    let ghost all = texts(roots@);
    let ghost f = |d: Seq<char>| chat_root(d, known);
    let mut out: Vec<String> = Vec::new();
    let mut i: usize = 0;
    while i < roots.len()
        invariant
            i <= roots@.len(),
            known == texts(dirs@),
            all == texts(roots@),
            f == |d: Seq<char>| chat_root(d, known),
            texts(out@) == all.take(i as int).map_values(f),
        decreases roots@.len() - i,
    {
        let tmp = child_path(roots[i].as_str(), "tmp");
        let below: bool = is_listed(dirs, tmp.as_str());
        let ghost before = texts(out@);
        if below {
            out.push(tmp);
        } else {
            out.push(roots[i].clone());
        }
        assert(texts(out@) =~= before.push(chat_root(all[i as int], known)));
        assert(all.take(i + 1).map_values(f) =~= all.take(i as int).map_values(f).push(
            f(all[i as int]),
        ));
        i = i + 1;
    }
    assert(all.take(i as int) =~= all);
    out
}

/// A recording, and what the marker beside the recordings holds.
pub struct Recording {
    pub file: FoundFile,
    pub marker: Option<String>,
}

/// The session that discovery finds in a recording. One that is not text is none.
pub open spec fn discovered(r: Recording) -> Option<FoundSession> {
    if recording_file(r.file) && valid_utf8(r.file.data@) && opens_with_metadata(
        decode_utf8(r.file.data@),
    ) {
        Some(session_of(r.file, decode_utf8(r.file.data@), r.marker.deep_view()))
    } else {
        None
    }
}

/// The sessions among recordings, in order, but for those at the paths that did not change.
pub open spec fn sessions_among(
    recordings: Seq<Recording>,
    unchanged: Seq<Seq<char>>,
) -> Seq<FoundSession>
    decreases recordings.len(),
{
    if recordings.len() == 0 {
        Seq::empty()
    } else {
        let before = sessions_among(recordings.drop_last(), unchanged);
        if unchanged.contains(recordings.last().file.path@) {
            before
        } else {
            match discovered(recordings.last()) {
                Some(s) => before.push(s),
                None => before,
            }
        }
    }
}

impl GeminiAdapter {
    /// The sessions among recordings, but for those at the paths that did not change.
    pub fn discover_sessions_in(recordings: &Vec<Recording>, unchanged: &Vec<String>) -> (r: Vec<
        DiscoveredSession,
    >)
        ensures
            r.deep_view() == sessions_among(recordings@, texts(unchanged@)),
    {
        let ghost known = texts(unchanged@);
        let mut out: Vec<DiscoveredSession> = Vec::new();
        let mut i: usize = 0;
        assert(recordings@.take(0) =~= Seq::<Recording>::empty());
        assert(out.deep_view() =~= sessions_among(recordings@.take(0), known));
        while i < recordings.len()
            invariant
                i <= recordings@.len(),
                known == texts(unchanged@),
                out.deep_view() == sessions_among(recordings@.take(i as int), known),
            decreases recordings@.len() - i,
        {
            assert(recordings@.take(i + 1).drop_last() =~= recordings@.take(i as int));
            assert(recordings@.take(i + 1).last() == recordings@[i as int]);
            let file = &recordings[i].file;
            if !is_listed(unchanged, file.path.as_str()) {
                let found: Option<DiscoveredSession> = match decode_strict(file.data.as_slice()) {
                    Some(text) => GeminiAdapter::discover_session(
                        file,
                        text.as_str(),
                        &recordings[i].marker,
                    ),
                    None => None,
                };
                match found {
                    Some(s) => {
                        let ghost before = out.deep_view();
                        out.push(s);
                        assert(out.deep_view() =~= before.push(s.deep_view()));
                    },
                    None => {},
                }
            }
            i = i + 1;
        }
        assert(recordings@.take(i as int) =~= recordings@);
        out
    }
}

/// Whatever the recordings hold, no session of another agent is found among them.
pub proof fn no_other_agent_is_found(recordings: Seq<Recording>, unchanged: Seq<Seq<char>>)
    ensures
        forall|k: int|
            0 <= k < sessions_among(recordings, unchanged).len() ==> (#[trigger] sessions_among(
                recordings,
                unchanged,
            )[k]).agent == Agent::Gemini,
    decreases recordings.len(),
{
    if recordings.len() > 0 {
        no_other_agent_is_found(recordings.drop_last(), unchanged);
        let before = sessions_among(recordings.drop_last(), unchanged);
        let all = sessions_among(recordings, unchanged);
        assert forall|k: int| 0 <= k < all.len() implies (#[trigger] all[k]).agent
            == Agent::Gemini by {
            if k < before.len() {
                assert(all[k] == before[k]);
            }
        }
    }
}

// ---------------------------------------------------------------------------
// What a recording says
// ---------------------------------------------------------------------------

/// The message has this id.
pub open spec fn named(m: Tree, id: Seq<char>) -> bool {
    m.field("id"@) == Some(Tree::Text(id))
}

/// Message `i` is the first of this id.
pub open spec fn first_named(messages: Seq<Tree>, id: Seq<char>, i: int) -> bool {
    &&& 0 <= i < messages.len()
    &&& named(messages[i], id)
    &&& forall|k: int| 0 <= k < i ==> !named(#[trigger] messages[k], id)
}

proof fn the_place_is_the_first(messages: Seq<Tree>, id: Seq<char>)
    ensures
        forall|i: int| #[trigger] first_named(messages, id, i) ==> place_of(messages, id) == Some(i),
        (forall|i: int| 0 <= i < messages.len() ==> !named(#[trigger] messages[i], id))
            ==> place_of(messages, id) is None,
    decreases messages.len(),
{
    if messages.len() > 0 {
        let rest = messages.drop_first();
        the_place_is_the_first(rest, id);
        assert forall|i: int| #[trigger] first_named(messages, id, i) implies place_of(messages, id)
            == Some(i) by {
            if i > 0 {
                assert(!named(messages[0], id));
                assert forall|k: int| 0 <= k < i - 1 implies !named(#[trigger] rest[k], id) by {
                    assert(rest[k] == messages[k + 1]);
                }
                assert(rest[i - 1] == messages[i]);
                assert(first_named(rest, id, i - 1));
            }
        }
        if forall|i: int| 0 <= i < messages.len() ==> !named(#[trigger] messages[i], id) {
            assert(!named(messages[0], id));
            assert forall|i: int| 0 <= i < rest.len() implies !named(#[trigger] rest[i], id) by {
                assert(rest[i] == messages[i + 1]);
            }
        }
    }
}

/// A rewind keeps what stands before the first message of the id that it names, and nothing where
/// no message has that id.
pub proof fn a_rewind_cuts(messages: Seq<Tree>, v: Tree, id: Seq<char>, i: int)
    requires
        v.field("$rewindTo"@) == Some(Tree::Text(id)),
    ensures
        first_named(messages, id, i) ==> operated(messages, v) == messages.take(i),
        (forall|k: int| 0 <= k < messages.len() ==> !named(#[trigger] messages[k], id))
            ==> operated(messages, v).len() == 0,
{
    the_place_is_the_first(messages, id);
}

/// A checkpoint is the conversation; an update without messages changes nothing in it.
pub proof fn a_checkpoint_is_the_conversation(messages: Seq<Tree>, v: Tree)
    requires
        v.field("$rewindTo"@) is None,
        v.field("$set"@) is Some,
    ensures
        match v.inner("$set"@, "messages"@) {
            Some(Tree::List(checkpoint)) => operated(messages, v) == checkpoint,
            _ => operated(messages, v) == messages,
        },
{
}

/// A message stands in place of the first one of its id, or at the end; what is no message changes
/// nothing.
pub proof fn a_message_is_recorded(messages: Seq<Tree>, v: Tree, id: Seq<char>, i: int)
    requires
        v.field("$rewindTo"@) is None,
        v.field("$set"@) is None,
    ensures
        named(v, id) && first_named(messages, id, i) ==> operated(messages, v) == messages.update(
            i,
            v,
        ),
        named(v, id) && (forall|k: int| 0 <= k < messages.len() ==> !named(
            #[trigger] messages[k],
            id,
        )) ==> operated(messages, v) == messages.push(v),
        (v.field("id"@) matches Some(t) ==> !(t is Text)) ==> operated(messages, v) == messages,
{
    the_place_is_the_first(messages, id);
}

/// Every line that is a document is an operation, and the operations are done in the order of the
/// lines.
pub proof fn one_more_line_is_one_more_operation(
    ls: Seq<Seq<char>>,
    line: Seq<char>,
    operations: Seq<Tree>,
    v: Tree,
)
    ensures
        operations_in(Seq::empty()) == Seq::<Tree>::empty(),
        blank(line) ==> operations_in(ls.push(line)) == operations_in(ls),
        !blank(line) && parsed(trimmed(line)) is None ==> operations_in(ls.push(line))
            == operations_in(ls),
        !blank(line) ==> (parsed(trimmed(line)) matches Some(t) ==> operations_in(ls.push(line))
            == operations_in(ls).push(t)),
        replayed(Seq::empty()) == Seq::<Tree>::empty(),
        replayed(operations.push(v)) == operated(replayed(operations), v),
{
    assert(ls.push(line).drop_last() =~= ls);
    assert(operations.push(v).drop_last() =~= operations);
}

/// The record holds this value of a field of the metadata: an update that is no checkpoint, or a
/// record that is neither a rewind nor a message.
pub open spec fn gives(v: Tree, field: Seq<char>, value: Seq<char>) -> bool {
    match v.field("$set"@) {
        Some(set) => set.field("messages"@) is None && set.field(field) == Some(Tree::Text(value)),
        None => {
            &&& v.field("$rewindTo"@) is None
            &&& v.field("id"@) is None
            &&& v.field(field) == Some(Tree::Text(value))
        },
    }
}

/// The metadata is what the last record that gives a value says.
pub proof fn the_last_value_counts(
    records: Seq<Tree>,
    v: Tree,
    field: Seq<char>,
    value: Seq<char>,
)
    ensures
        metadata_of(Seq::empty(), field) is None,
        gives(v, field, value) ==> metadata_of(records.push(v), field) == Some(value),
        (forall|other: Seq<char>| !(#[trigger] gives(v, field, other))) ==> metadata_of(
            records.push(v),
            field,
        ) == metadata_of(records, field),
{
    assert(records.push(v).drop_last() =~= records);
    match metadata_in(v) {
        Some(holder) => {
            match holder.text_at(field) {
                Some(other) => {
                    assert(gives(v, field, other));
                },
                None => {},
            }
        },
        None => {},
    }
}

/// A content is a text, one part that holds a text, or several parts.
pub proof fn what_a_content_says(content: Tree, text: Seq<char>)
    ensures
        content == Tree::Text(text) ==> part_prose(content) == text,
        content is Object && content.field("text"@) == Some(Tree::Text(text)) ==> part_prose(content)
            == text,
        content is Object && (content.field("text"@) matches Some(t) ==> !(t is Text))
            ==> part_prose(content).len() == 0,
        content is Null ==> part_prose(content).len() == 0,
        content is List ==> part_prose(content) == prose(content, Blocks::Any),
{
}

/// A message of the person, or of the agent.
pub open spec fn typed(m: Tree, name: Seq<char>) -> bool {
    m.field("type"@) == Some(Tree::Text(name))
}

/// What the person or the agent says is told, with its own id, time and prose. What opens with a
/// tag in the person's name is the program's, and is not; the agent may open as it likes.
pub proof fn what_a_message_tells(i: int, m: Tree)
    ensures
        event_of(i, m) is Some <==> ({
            let text = part_prose(m.field_or_null("content"@));
            &&& !blank(text)
            &&& (typed(m, "user"@) && text[0] != '<') || typed(m, "gemini"@)
        }),
        event_of(i, m) matches Some(e) ==> {
            &&& e.source_event_id == m.text_at("id"@)
            &&& e.source_position == "msg:"@ + decimal((i + 1) as nat)
            &&& e.ts == m.text_at("timestamp"@)
            &&& e.text == Some(part_prose(m.field_or_null("content"@)))
            &&& typed(m, "user"@) ==> e.kind == "user_message"@ && e.metadata == Tree::Object(
                seq![("agent"@, Tree::Text("gemini"@)), ("type"@, Tree::Text("user"@))],
            )
            &&& typed(m, "gemini"@) ==> e.kind == "assistant_message"@ && e.metadata
                == Tree::Object(
                seq![("agent"@, Tree::Text("gemini"@)), ("type"@, Tree::Text("gemini"@))],
            )
        },
{
    reveal_strlit("user");
    reveal_strlit("gemini");
    reveal_strlit("");
    reveal_strlit("user_message");
    reveal_strlit("assistant_message");
    assert("user"@.len() == 4 && "gemini"@.len() == 6);
    assert("user_message"@.len() != "assistant_message"@.len());
}

/// Each message is told in its order, numbered by where it stands.
pub proof fn messages_tell_in_their_order(messages: Seq<Tree>, m: Tree)
    ensures
        events_of(Seq::empty()) == Seq::<Event>::empty(),
        event_of(messages.len() as int, m) is None ==> events_of(messages.push(m)) == events_of(
            messages,
        ),
        event_of(messages.len() as int, m) matches Some(e) ==> events_of(messages.push(m))
            == events_of(messages).push(e),
{
    assert(messages.push(m).drop_last() =~= messages);
}

/// Event `i` is the first of a kind.
pub open spec fn first_of_kind(events: Seq<Event>, kind: Seq<char>, i: int) -> bool {
    &&& 0 <= i < events.len()
    &&& events[i].kind == kind
    &&& forall|k: int| 0 <= k < i ==> (#[trigger] events[k]).kind != kind
}

/// The text of the first event of a kind is found, and none where there is no such event.
pub proof fn the_first_text_is_found(events: Seq<Event>, kind: Seq<char>)
    ensures
        forall|i: int|
            #[trigger] first_of_kind(events, kind, i) ==> first_text_of(events, kind)
                == events[i].text,
        (forall|i: int| 0 <= i < events.len() ==> (#[trigger] events[i]).kind != kind)
            ==> first_text_of(events, kind) is None,
    decreases events.len(),
{
    if events.len() > 0 {
        let rest = events.drop_first();
        the_first_text_is_found(rest, kind);
        assert forall|i: int| #[trigger] first_of_kind(events, kind, i) implies first_text_of(
            events,
            kind,
        ) == events[i].text by {
            if i > 0 {
                assert(events[0].kind != kind);
                assert forall|k: int| 0 <= k < i - 1 implies (#[trigger] rest[k]).kind != kind by {
                    assert(rest[k] == events[k + 1]);
                }
                assert(rest[i - 1] == events[i]);
                assert(first_of_kind(rest, kind, i - 1));
            }
        }
        if forall|i: int| 0 <= i < events.len() ==> (#[trigger] events[i]).kind != kind {
            assert(events[0].kind != kind);
            assert forall|i: int| 0 <= i < rest.len() implies (#[trigger] rest[i]).kind != kind by {
                assert(rest[i] == events[i + 1]);
            }
        }
    }
}

/// A recording is known by the name of its file, whatever id it names inside; it shows the first
/// prompt of the conversation that it ends on.
pub proof fn a_recording_is_known_by_its_file(
    file: FoundFile,
    text: Seq<char>,
    marker: Option<Seq<char>>,
)
    ensures
        ({
            let s = session_of(file, text, marker);
            let told = first_text_of(
                events_of(replayed(operations_in(lines_of(text)))),
                "user_message"@,
            );
            &&& s.agent == Agent::Gemini
            &&& s.agent_session_id == stem_of(file.name@)
            &&& s.path == file.path@
            &&& marker is None ==> s.cwd is None
            &&& marker matches Some(m) ==> s.cwd == (if blank(m) {
                None
            } else {
                Some(trimmed(m))
            })
            &&& s.started_at == metadata_of(records_in(lines_of(text)), "startTime"@)
            &&& file.modified is None ==> s.last_activity_at is None
            &&& file.modified matches Some(t) ==> s.last_activity_at == Some(t@)
            &&& s.native_title is None
            &&& told is None ==> s.first_user_text is None
            &&& told matches Some(t) ==> s.first_user_text == Some(shortened(t, 400))
            &&& s.first_agent_text is None
            &&& s.parent_agent_session_id is None
        }),
{
}

/// A recording is a `session-*.jsonl` in a directory `chats`, is text, and opens with a record that
/// names a session, a project and a start.
pub proof fn what_a_recording_is(r: Recording)
    ensures
        recording_file(r.file) <==> {
            &&& r.file.ancestors@.len() > 0
            &&& r.file.ancestors@[0].name@ == "chats"@
            &&& starts(r.file.name@, "session-"@)
            &&& ends(r.file.name@, ".jsonl"@)
        },
        discovered(r) is Some <==> {
            &&& recording_file(r.file)
            &&& valid_utf8(r.file.data@)
            &&& first_solid(lines_of(decode_utf8(r.file.data@))) matches Some(line) && parsed(
                line,
            ) matches Some(v) && v.field("sessionId"@) is Some && v.field("projectHash"@) is Some
                && v.field("startTime"@) is Some
        },
        discovered(r) matches Some(s) ==> s == session_of(
            r.file,
            decode_utf8(r.file.data@),
            r.marker.deep_view(),
        ),
{
}

/// Recordings stand in the `tmp` of a root that has one.
pub proof fn where_recordings_stand(root: Seq<char>, dirs: Seq<Seq<char>>)
    ensures
        dirs.contains(child_of(root, "tmp"@)) ==> chat_root(root, dirs) == child_of(root, "tmp"@),
        !dirs.contains(child_of(root, "tmp"@)) ==> chat_root(root, dirs) == root,
{
}

/// Each recording is found in its order, but for those at a path that did not change.
pub proof fn each_recording_is_found(
    recordings: Seq<Recording>,
    r: Recording,
    unchanged: Seq<Seq<char>>,
)
    ensures
        sessions_among(Seq::empty(), unchanged) == Seq::<FoundSession>::empty(),
        unchanged.contains(r.file.path@) || discovered(r) is None ==> sessions_among(
            recordings.push(r),
            unchanged,
        ) == sessions_among(recordings, unchanged),
        !unchanged.contains(r.file.path@) ==> (discovered(r) matches Some(s) ==> sessions_among(
            recordings.push(r),
            unchanged,
        ) == sessions_among(recordings, unchanged).push(s)),
{
    assert(recordings.push(r).drop_last() =~= recordings);
}

} // verus!
