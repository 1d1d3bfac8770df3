//! WorkBuddy: `projects/<slug>/<sessionId>.jsonl`.
//!
//! A transcript without a header: every line repeats the session's facts. WorkBuddy wraps each
//! human turn in an envelope of context and puts the prompt into `<user_query>` at its end, and
//! it replays its compactions as user messages. WorkBuddy has no command line program: its
//! history is read and nothing is launched.
use crate::adapters::content::{
    document_views, documents, first_of, first_text, is_jsonl_file, jsonl_file, prose, prose_of,
    read_documents, solid_string_at, solid_text_at, Blocks,
};
use crate::adapters::discovery::{
    find_sessions, sessions_are_of_one_agent, sessions_in, SessionFinder,
};
use crate::adapters::events::{
    event_delta_of, event_metadata, metadata_of_event, read_event_delta, DiscoveredSession, Event,
    EventFormat, FoundSession, ParsedEvent, ReadDelta,
};
use crate::adapters::fingerprint::{detect_format, format_of, MAX_PARSE_LINES};
use crate::adapters::reader::SourceFile;
use crate::adapters::{injected, is_injected_preamble, shortened, truncate_text, AgentCommand};
use crate::domain::{copy_text, Agent, SessionMemberCursor};
use crate::error::{other, AppError, Fault};
use crate::json::{Json, Tree};
use crate::paths::{file_stem, stem_of, FoundFile};
use crate::text::{
    blank, chars_of, find_from, first_at, is_blank, starts, starts_with, string_of, texts, trim,
    trimmed,
};
use crate::time::{ms_epoch_to_rfc3339, rfc3339_of_millis};
use vstd::prelude::*;

verus! {

/// The adapter for WorkBuddy.
pub struct WorkBuddyAdapter;

// ---------------------------------------------------------------------------
// User turns
// ---------------------------------------------------------------------------

/// What a message in the user's name really is.
pub enum UserTurn {
    /// The user's own words.
    Prompt(String),
    /// A compaction, replayed.
    Compaction,
    /// Context without a prompt.
    Envelope,
}

/// What a message in the user's name really is, as a mathematical value.
pub enum Turn {
    Prompt(Seq<char>),
    Compaction,
    Envelope,
}

impl DeepView for UserTurn {
    type V = Turn;

    open spec fn deep_view(&self) -> Turn {
        match *self {
            UserTurn::Prompt(s) => Turn::Prompt(s@),
            UserTurn::Compaction => Turn::Compaction,
            UserTurn::Envelope => Turn::Envelope,
        }
    }
}

/// The text between the first `<user_query>` and the `</user_query>` behind it, or everything
/// behind the first where the second is missing; trimmed, and none where nothing is left.
pub open spec fn user_query(text: Seq<char>) -> Option<Seq<char>> {
    match first_at(text, "<user_query>"@) {
        None => None,
        Some(i) => {
            let rest = text.skip(i + "<user_query>"@.len());
            let inner = match first_at(rest, "</user_query>"@) {
                Some(j) => rest.take(j),
                None => rest,
            };
            if blank(inner) {
                None
            } else {
                Some(trimmed(inner))
            }
        },
    }
}

/// A compaction that is replayed as a message of the user.
pub open spec fn compaction_block(text: Seq<char>) -> bool {
    starts(text, "<conversation_history_summary"@) || starts(text, "<cb_summary"@)
}

/// What a message in the user's name is. A replayed compaction may quote a prompt and is still
/// none.
pub open spec fn turn_of(raw: Seq<char>) -> Turn {
    if compaction_block(raw) {
        Turn::Compaction
    } else {
        match user_query(raw) {
            Some(prompt) => Turn::Prompt(prompt),
            None => if injected(raw) {
                Turn::Envelope
            } else {
                Turn::Prompt(raw)
            },
        }
    }
}

/// The prompt in WorkBuddy's envelope, where there is one.
pub fn extract_user_query(text: &str) -> (r: Option<String>)
    ensures
        r.deep_view() == user_query(text@),
{
    let v = chars_of(text);
    let open_tag = chars_of("<user_query>");
    let close_tag = chars_of("</user_query>");
    match find_from(&v, &open_tag, 0) {
        None => None,
        Some(i) => {
            let n: usize = v.len();
            let from: usize = i + open_tag.len();
            let rest = string_of(&v, from, n);
            assert(rest@ =~= text@.skip(from as int));
            let rv = chars_of(rest.as_str());
            let inner: String = match find_from(&rv, &close_tag, 0) {
                Some(j) => {
                    assert(rv@.subrange(0, j as int) =~= rest@.take(j as int));
                    string_of(&rv, 0, j)
                },
                None => rest,
            };
            let inner = trim(inner.as_str());
            if inner.as_str().is_empty() {
                None
            } else {
                Some(inner)
            }
        },
    }
}

/// Whether a message in the user's name replays a compaction.
pub fn is_compaction_block(text: &str) -> (r: bool)
    ensures
        r == compaction_block(text@),
{
    starts_with(text, "<conversation_history_summary") || starts_with(text, "<cb_summary")
}

/// What a message in the user's name really is.
pub fn classify_user_turn(raw: &str) -> (r: UserTurn)
    ensures
        r.deep_view() == turn_of(raw@),
{
    if is_compaction_block(raw) {
        return UserTurn::Compaction;
    }
    match extract_user_query(raw) {
        Some(prompt) => UserTurn::Prompt(prompt),
        None => {
            if is_injected_preamble(raw) {
                UserTurn::Envelope
            } else {
                UserTurn::Prompt(raw.to_owned())
            }
        },
    }
}

// ---------------------------------------------------------------------------
// Facts of a transcript
// ---------------------------------------------------------------------------

/// What the documents of a transcript say about it.
pub struct Transcript {
    pub session_id: Option<String>,
    pub cwd: Option<String>,
    pub started_at: Option<String>,
    pub last_ts: Option<String>,
    pub native_title: Option<String>,
    pub first_user_text: Option<String>,
    pub first_agent_text: Option<String>,
}

/// What the documents of a transcript say about it, as a mathematical value.
pub struct TranscriptFacts {
    pub session_id: Option<Seq<char>>,
    pub cwd: Option<Seq<char>>,
    pub started_at: Option<Seq<char>>,
    pub last_ts: Option<Seq<char>>,
    pub native_title: Option<Seq<char>>,
    pub first_user_text: Option<Seq<char>>,
    pub first_agent_text: Option<Seq<char>>,
}

impl DeepView for Transcript {
    type V = TranscriptFacts;

    open spec fn deep_view(&self) -> TranscriptFacts {
        TranscriptFacts {
            session_id: self.session_id.deep_view(),
            cwd: self.cwd.deep_view(),
            started_at: self.started_at.deep_view(),
            last_ts: self.last_ts.deep_view(),
            native_title: self.native_title.deep_view(),
            first_user_text: self.first_user_text.deep_view(),
            first_agent_text: self.first_agent_text.deep_view(),
        }
    }
}

/// The time of a line, which WorkBuddy gives in epoch milliseconds.
pub open spec fn time_of(v: Tree) -> Option<Seq<char>> {
    match v.whole_at("timestamp"@) {
        Some(ms) => rfc3339_of_millis(ms),
        None => None,
    }
}

/// The time of a line.
pub fn timestamp_of(v: &Json) -> (r: Option<String>)
    ensures
        r.deep_view() == time_of(v.tree()),
{
    match v.get("timestamp") {
        Some(t) => match t.as_i64() {
            Some(ms) => ms_epoch_to_rfc3339(ms),
            None => None,
        },
        None => None,
    }
}

/// The prose of a line.
pub open spec fn said(v: Tree) -> Seq<char> {
    prose(v.field_or_null("content"@), Blocks::InputOrOutput)
}

/// The line is a message of `role`.
pub open spec fn message_by(v: Tree, role: Seq<char>) -> bool {
    v.text_at("type"@) == Some("message"@) && v.text_at("role"@) == Some(role)
}

impl TranscriptFacts {
    /// Nothing known yet.
    pub open spec fn none() -> TranscriptFacts {
        TranscriptFacts {
            session_id: None,
            cwd: None,
            started_at: None,
            last_ts: None,
            native_title: None,
            first_user_text: None,
            first_agent_text: None,
        }
    }

    /// After one more document. Of several titles the last one stands.
    pub open spec fn after(self, v: Tree) -> TranscriptFacts {
        TranscriptFacts {
            session_id: first_of(self.session_id, v.text_at("sessionId"@)),
            cwd: first_of(self.cwd, solid_text_at(v, "cwd"@)),
            started_at: first_of(self.started_at, time_of(v)),
            last_ts: first_of(time_of(v), self.last_ts),
            native_title: match v.text_at("aiTitle"@) {
                Some(t) if v.text_at("type"@) == Some("ai-title"@) && !blank(t) => Some(t),
                _ => self.native_title,
            },
            first_user_text: first_of(
                self.first_user_text,
                match turn_of(said(v)) {
                    Turn::Prompt(text) if message_by(v, "user"@) => Some(shortened(text, 400)),
                    _ => None,
                },
            ),
            first_agent_text: first_of(
                self.first_agent_text,
                if message_by(v, "assistant"@) && !blank(said(v)) {
                    Some(shortened(said(v), 400))
                } else {
                    None
                },
            ),
        }
    }

    /// What a transcript's documents say together.
    pub open spec fn of(docs: Seq<(int, Tree)>) -> TranscriptFacts
        decreases docs.len(),
    {
        if docs.len() == 0 {
            TranscriptFacts::none()
        } else {
            TranscriptFacts::of(docs.drop_last()).after(docs.last().1)
        }
    }
}

impl Transcript {
    fn note(&mut self, v: &Json)
        ensures
            final(self).deep_view() == old(self).deep_view().after(v.tree()),
    {
        if self.session_id.is_none() {
            self.session_id = v.string_at("sessionId");
        }
        if self.cwd.is_none() {
            self.cwd = solid_string_at(v, "cwd");
        }
        match timestamp_of(v) {
            Some(ts) => {
                if self.started_at.is_none() {
                    self.started_at = Some(ts.clone());
                }
                self.last_ts = Some(ts);
            },
            None => {},
        }
        if v.text_is("type", "ai-title") {
            match v.string_at("aiTitle") {
                Some(t) => {
                    if !is_blank(t.as_str()) {
                        self.native_title = Some(t);
                    }
                },
                None => {},
            }
        }
        if v.text_is("type", "message") {
            let raw = prose_of(v.get("content"), Blocks::InputOrOutput);
            if self.first_user_text.is_none() && v.text_is("role", "user") {
                match classify_user_turn(raw.as_str()) {
                    UserTurn::Prompt(text) => {
                        self.first_user_text = Some(truncate_text(text.as_str(), 400));
                    },
                    _ => {},
                }
            }
            if self.first_agent_text.is_none() && v.text_is("role", "assistant") && !is_blank(
                raw.as_str(),
            ) {
                self.first_agent_text = Some(truncate_text(raw.as_str(), 400));
            }
        }
    }
}

// ---------------------------------------------------------------------------
// Discovery
// ---------------------------------------------------------------------------

/// The session that a transcript of these documents is.
pub open spec fn session_with(file: FoundFile, docs: Seq<(int, Tree)>) -> FoundSession {
    let facts = TranscriptFacts::of(docs);
    FoundSession {
        agent: Agent::WorkBuddy,
        agent_session_id: match facts.session_id {
            Some(id) => id,
            None => stem_of(file.name@),
        },
        path: file.path@,
        cwd: facts.cwd,
        started_at: facts.started_at,
        last_activity_at: first_of(file.modified.deep_view(), facts.last_ts),
        native_title: facts.native_title,
        first_user_text: facts.first_user_text,
        first_agent_text: facts.first_agent_text,
        parent_agent_session_id: None,
    }
}

/// The session that a transcript is.
pub open spec fn session_of(file: FoundFile) -> FoundSession {
    session_with(file, documents(file.data@))
}

/// The session that discovery finds in a file: any `.jsonl` file whose content is WorkBuddy's.
pub open spec fn discovered(file: FoundFile) -> Option<FoundSession> {
    if jsonl_file(file.name@) && format_of(texts(file.head@), MAX_PARSE_LINES as int) == Some(
        Agent::WorkBuddy,
    ) {
        Some(session_of(file))
    } else {
        None
    }
}

impl WorkBuddyAdapter {
    /// The session that a transcript is.
    pub fn parse_session_file(file: &FoundFile) -> (r: DiscoveredSession)
        ensures
            r.deep_view() == session_of(*file),
    {
        WorkBuddyAdapter::session_from(file, &read_documents(file.data.as_slice()))
    }

    /// The session that a transcript of these documents is, each with the number of its line.
    pub fn session_from(file: &FoundFile, docs: &Vec<(usize, Json)>) -> (r: DiscoveredSession)
        ensures
            r.deep_view() == session_with(*file, document_views(docs@)),
    {
        let ghost all = document_views(docs@);
        let mut facts = Transcript {
            session_id: None,
            cwd: None,
            started_at: None,
            last_ts: None,
            native_title: None,
            first_user_text: None,
            first_agent_text: None,
        };
        let mut i: usize = 0;
        assert(all.take(0) =~= Seq::<(int, Tree)>::empty());
        while i < docs.len()
            invariant
                i <= docs@.len(),
                all == document_views(docs@),
                facts.deep_view() == TranscriptFacts::of(all.take(i as int)),
            decreases docs@.len() - i,
        {
            assert(all.take(i + 1).drop_last() =~= all.take(i as int));
            assert(all.take(i + 1).last().1 == docs@[i as int].1.tree());
            facts.note(&docs[i].1);
            i = i + 1;
        }
        assert(all.take(i as int) =~= all);
        let id: String = match facts.session_id {
            Some(id) => id,
            None => file_stem(file.name.as_str()),
        };
        DiscoveredSession {
            agent: Agent::WorkBuddy,
            agent_session_id: id,
            path: file.path.clone(),
            cwd: facts.cwd,
            started_at: facts.started_at,
            last_activity_at: first_text(copy_text(&file.modified), facts.last_ts),
            native_title: facts.native_title,
            first_user_text: facts.first_user_text,
            first_agent_text: facts.first_agent_text,
            parent_agent_session_id: None,
        }
    }

    /// The session that discovery finds in a file.
    pub fn discover_session(file: &FoundFile) -> (r: Option<DiscoveredSession>)
        ensures
            r.deep_view() == discovered(*file),
    {
        if !is_jsonl_file(file.name.as_str()) {
            return None;
        }
        match detect_format(&file.head) {
            Some(Agent::WorkBuddy) => Some(WorkBuddyAdapter::parse_session_file(file)),
            _ => None,
        }
    }
}

// ---------------------------------------------------------------------------
// Lines
// ---------------------------------------------------------------------------

/// The events of a transcript's lines.
pub struct WorkBuddyEvents;

/// What a message is, and the text that is kept of it. Of a compaction only the fact is kept.
pub open spec fn kind_and_text(v: Tree) -> Option<(Seq<char>, Seq<char>)> {
    if v.text_at("role"@) == Some("user"@) {
        match turn_of(said(v)) {
            Turn::Prompt(p) => Some(("user_message"@, p)),
            Turn::Compaction => Some(("compact"@, "conversation compacted"@)),
            Turn::Envelope => None,
        }
    } else if v.text_at("role"@) == Some("assistant"@) {
        Some(("assistant_message"@, said(v)))
    } else {
        Some(("system"@, said(v)))
    }
}

/// The event of a line. Only messages are events, and an empty message is none.
pub open spec fn event_of(v: Tree) -> Option<Event> {
    if v.text_at("type"@) != Some("message"@) || blank(said(v)) {
        None
    } else {
        match kind_and_text(v) {
            None => None,
            Some((kind, text)) => Some(
                Event {
                    source_event_id: v.text_at("id"@),
                    source_position: Seq::empty(),
                    ts: None,
                    kind,
                    text: Some(text),
                    metadata: event_metadata("workbuddy"@, "message"@),
                },
            ),
        }
    }
}

/// The event of a line.
pub fn parse_line(v: &Json) -> (r: Option<ParsedEvent>)
    ensures
        r.deep_view() == event_of(v.tree()),
{
    if !v.text_is("type", "message") {
        return None;
    }
    let raw = prose_of(v.get("content"), Blocks::InputOrOutput);
    if is_blank(raw.as_str()) {
        return None;
    }
    let (kind, text): (&str, String) = if v.text_is("role", "user") {
        match classify_user_turn(raw.as_str()) {
            UserTurn::Prompt(p) => ("user_message", p),
            UserTurn::Compaction => ("compact", "conversation compacted".to_owned()),
            UserTurn::Envelope => {
                return None;
            },
        }
    } else if v.text_is("role", "assistant") {
        ("assistant_message", raw)
    } else {
        ("system", raw)
    };
    Some(
        ParsedEvent {
            source_event_id: v.string_at("id"),
            source_position: String::new(),
            ts: None,
            kind: kind.to_owned(),
            text: Some(text),
            metadata: metadata_of_event("workbuddy", "message"),
        },
    )
}

impl EventFormat for WorkBuddyEvents {
    open spec fn event(&self, v: Tree) -> Option<Event> {
        event_of(v)
    }

    fn read_event(&self, v: &Json) -> (r: Option<ParsedEvent>) {
        parse_line(v)
    }
}

impl WorkBuddyAdapter {
    /// Reads what a transcript holds beyond its cursor.
    pub fn read_delta(file: &SourceFile, cursor: &SessionMemberCursor) -> (r: ReadDelta)
        requires
            cursor.generation < i64::MAX,
        ensures
            r.deep_view() == event_delta_of(WorkBuddyEvents, *file, *cursor),
    {
        read_event_delta(file, cursor, &WorkBuddyEvents)
    }

    /// A new session cannot be launched.
    pub fn build_new_command() -> (r: Result<AgentCommand, AppError>)
        ensures
            r matches Err(e) && e.deep_view() == Fault::Other(
                "WorkBuddy 是 GUI 应用，没有可启动的 CLI"@,
            ),
    {
        Err(other("WorkBuddy 是 GUI 应用，没有可启动的 CLI"))
    }

    /// A session cannot be continued.
    pub fn build_resume_command() -> (r: Result<AgentCommand, AppError>)
        ensures
            r matches Err(e) && e.deep_view() == Fault::Other(
                "WorkBuddy 是 GUI 应用，没有可启动的 CLI"@,
            ),
    {
        Err(other("WorkBuddy 是 GUI 应用，没有可启动的 CLI"))
    }

    /// One answer cannot be asked for.
    pub fn build_exec_command() -> (r: Result<AgentCommand, AppError>)
        ensures
            r matches Err(e) && e.deep_view() == Fault::Other(
                "WorkBuddy 是 GUI 应用，没有可启动的 CLI"@,
            ),
    {
        Err(other("WorkBuddy 是 GUI 应用，没有可启动的 CLI"))
    }
}

// ---------------------------------------------------------------------------
// Laws
// ---------------------------------------------------------------------------

/// A replayed compaction is never the user's words, whatever it quotes.
pub proof fn a_compaction_is_no_prompt(v: Tree)
    requires
        message_by(v, "user"@),
        compaction_block(said(v)),
    ensures
        event_of(v) matches Some(e) ==> e.kind == "compact"@ && e.text == Some(
            "conversation compacted"@,
        ),
{
}

// ---------------------------------------------------------------------------
// Discovery among files
// ---------------------------------------------------------------------------

impl SessionFinder for WorkBuddyAdapter {
    open spec fn session(&self, file: FoundFile) -> Option<FoundSession> {
        discovered(file)
    }

    fn find(&self, file: &FoundFile) -> Option<DiscoveredSession> {
        WorkBuddyAdapter::discover_session(file)
    }
}

impl WorkBuddyAdapter {
    /// The sessions among files, but for the files at the paths that did not change.
    pub fn discover_sessions_in(files: &Vec<FoundFile>, unchanged: &Vec<String>) -> (r: Vec<
        DiscoveredSession,
    >)
        ensures
            r.deep_view() == sessions_in(WorkBuddyAdapter, files@, texts(unchanged@)),
    {
        find_sessions(&WorkBuddyAdapter, files, unchanged)
    }
}

/// Whatever the files hold, no session of another agent is found among them.
pub proof fn no_other_agent_is_found(files: Seq<FoundFile>, unchanged: Seq<Seq<char>>)
    ensures
        forall|k: int|
            0 <= k < sessions_in(WorkBuddyAdapter, files, unchanged).len() ==> (
            #[trigger] sessions_in(WorkBuddyAdapter, files, unchanged)[k]).agent
                == Agent::WorkBuddy,
{
    sessions_are_of_one_agent(WorkBuddyAdapter, files, unchanged, Agent::WorkBuddy);
}

} // verus!
