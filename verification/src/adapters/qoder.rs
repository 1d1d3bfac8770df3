//! Qoder: `projects/<encoded-cwd>/<session>.jsonl`.
//!
//! Qoder writes the lines of `claude_code` plus bookkeeping lines of its own. The main transcript
//! is the root; a file under `<session>/subagents/` is a child, whose lines repeat the root's
//! session id. Qoder is an editor without a command line program: its history is read and nothing is
//! launched.
use crate::adapters::claude::{on_main_chain, on_side_chain, prose_of_line, said};
use crate::adapters::content::{
    document_views, documents, empty_object, first_of, first_text, is_jsonl_file, is_true,
    jsonl_file, observed, read_documents, solid_string_at, solid_text_at,
};
use crate::adapters::discovery::{
    find_members, members_are_of_one_agent, members_in, MemberFinder,
};
use crate::adapters::fingerprint::{detect_format, format_of, MAX_PARSE_LINES};
use crate::adapters::reader::{
    delta_of, read_jsonl_delta, LineFormat, MemberReadDelta, Provenance, ProvenanceState,
    SourceFile, StatsCapabilities,
};
use crate::adapters::{
    counted, injected, is_injected_preamble, message_of, parsed_message, shortened, truncate_text,
    AgentCommand, DiscoveredMember, DiscoveredMemberKind, Line, Member, ParsedLine,
};
use crate::domain::{
    copy_text, Agent, MemberObservation, Message, SessionMemberCursor, SessionMemberRelation,
    SessionMessageRole,
};
use crate::error::{other, AppError, Fault};
use crate::json::{named_trees, object_tree, parse, parsed, Json, Tree};
use crate::paths::{file_stem, stem_of, FoundFile};
use crate::text::{blank, ends, ends_with, is_blank, same, starts, starts_with, texts};
use vstd::prelude::*;

verus! {

/// The adapter for Qoder.
pub struct QoderAdapter;

// ---------------------------------------------------------------------------
// Titles
// ---------------------------------------------------------------------------

/// Qoder settled on the title: it says where the title came from, and not that it is
/// provisional.
pub open spec fn settled(source: Option<Seq<char>>) -> bool {
    source matches Some(s) && s != "provisional"@
}

/// Whether Qoder's title for a session is one that it settled on.
pub fn is_resolved_title(source: Option<&str>) -> (r: bool)
    ensures
        r == settled(source.deep_view()),
{
    match source {
        Some(s) => !same(s, "provisional"),
        None => false,
    }
}

/// Where the store says that a title came from.
pub open spec fn title_source(extra: Option<Seq<char>>) -> Option<Seq<char>> {
    match extra {
        None => None,
        Some(e) => match parsed(e) {
            Some(v) => v.text_at("titleSource"@),
            None => None,
        },
    }
}

/// A title from this source, where it is one.
pub open spec fn title_from_source(title: Seq<char>, source: Option<Seq<char>>) -> Option<
    Seq<char>,
> {
    if settled(source) && !blank(title) {
        Some(title)
    } else {
        None
    }
}

/// The title that the store's row gives a session.
pub open spec fn row_title(title: Seq<char>, extra: Option<Seq<char>>) -> Option<Seq<char>> {
    title_from_source(title, title_source(extra))
}

/// The title that the store's row gives a session.
pub fn title_of_row(title: &str, extra: &Option<String>) -> (r: Option<String>)
    ensures
        r.deep_view() == row_title(title@, extra.deep_view()),
{
    let source: Option<String> = match extra {
        None => None,
        Some(e) => match parse(e.as_str()) {
            Some(v) => v.string_at("titleSource"),
            None => None,
        },
    };
    sourced_title(title, &source)
}

/// A title from this source, where it is one.
pub fn sourced_title(title: &str, source: &Option<String>) -> (r: Option<String>)
    ensures
        r.deep_view() == title_from_source(title@, source.deep_view()),
{
    let resolved: bool = match source {
        Some(s) => is_resolved_title(Some(s.as_str())),
        None => false,
    };
    if resolved && !is_blank(title) {
        Some(title.to_owned())
    } else {
        None
    }
}

// ---------------------------------------------------------------------------
// Facts of a transcript
// ---------------------------------------------------------------------------

/// What the documents of a transcript say about it.
pub struct Transcript {
    pub session_id: Option<String>,
    pub cwd: Option<String>,
    pub started_at: Option<String>,
    pub last_ts: Option<String>,
    pub first_user_text: Option<String>,
    pub first_agent_text: Option<String>,
}

/// What the documents of a transcript say about it, as a mathematical value.
pub struct TranscriptFacts {
    pub session_id: Option<Seq<char>>,
    pub cwd: Option<Seq<char>>,
    pub started_at: Option<Seq<char>>,
    pub last_ts: Option<Seq<char>>,
    pub first_user_text: Option<Seq<char>>,
    pub first_agent_text: Option<Seq<char>>,
}

impl DeepView for Transcript {
    type V = TranscriptFacts;

    open spec fn deep_view(&self) -> TranscriptFacts {
        TranscriptFacts {
            session_id: self.session_id.deep_view(),
            cwd: self.cwd.deep_view(),
            started_at: self.started_at.deep_view(),
            last_ts: self.last_ts.deep_view(),
            first_user_text: self.first_user_text.deep_view(),
            first_agent_text: self.first_agent_text.deep_view(),
        }
    }
}

impl TranscriptFacts {
    /// Nothing known yet.
    pub open spec fn none() -> TranscriptFacts {
        TranscriptFacts {
            session_id: None,
            cwd: None,
            started_at: None,
            last_ts: None,
            first_user_text: None,
            first_agent_text: None,
        }
    }

    /// After one more document. Only times that are texts count.
    pub open spec fn after(self, v: Tree) -> TranscriptFacts {
        let text = said(v);
        TranscriptFacts {
            session_id: first_of(self.session_id, v.text_at("sessionId"@)),
            cwd: first_of(self.cwd, solid_text_at(v, "cwd"@)),
            started_at: first_of(self.started_at, v.text_at("timestamp"@)),
            last_ts: first_of(v.text_at("timestamp"@), self.last_ts),
            first_user_text: first_of(
                self.first_user_text,
                if on_main_chain(v, "user"@) && text.len() > 0 && !injected(text) {
                    Some(shortened(text, 400))
                } else {
                    None
                },
            ),
            first_agent_text: first_of(
                self.first_agent_text,
                if on_main_chain(v, "assistant"@) && text.len() > 0 {
                    Some(shortened(text, 400))
                } else {
                    None
                },
            ),
        }
    }

    /// What a transcript's documents say together.
    pub open spec fn of(docs: Seq<(int, Tree)>) -> TranscriptFacts
        decreases docs.len(),
    {
        if docs.len() == 0 {
            TranscriptFacts::none()
        } else {
            TranscriptFacts::of(docs.drop_last()).after(docs.last().1)
        }
    }
}

impl Transcript {
    fn note(&mut self, v: &Json)
        ensures
            final(self).deep_view() == old(self).deep_view().after(v.tree()),
    {
        if self.session_id.is_none() {
            self.session_id = v.string_at("sessionId");
        }
        if self.cwd.is_none() {
            self.cwd = solid_string_at(v, "cwd");
        }
        match v.string_at("timestamp") {
            Some(ts) => {
                if self.started_at.is_none() {
                    self.started_at = Some(ts.clone());
                }
                self.last_ts = Some(ts);
            },
            None => {},
        }
        let side: bool = is_true(v, "isSidechain");
        if self.first_user_text.is_none() && v.text_is("type", "user") && !side {
            let text = prose_of_line(v);
            if !text.as_str().is_empty() && !is_injected_preamble(text.as_str()) {
                self.first_user_text = Some(truncate_text(text.as_str(), 400));
            }
        }
        if self.first_agent_text.is_none() && v.text_is("type", "assistant") && !side {
            let text = prose_of_line(v);
            if !text.as_str().is_empty() {
                self.first_agent_text = Some(truncate_text(text.as_str(), 400));
            }
        }
    }
}

/// The first session id among documents that is not empty.
pub open spec fn session_id_among(docs: Seq<(int, Tree)>) -> Option<Seq<char>>
    decreases docs.len(),
{
    if docs.len() == 0 {
        None
    } else {
        match solid_text_at(docs[0].1, "sessionId"@) {
            Some(id) => Some(id),
            None => session_id_among(docs.drop_first()),
        }
    }
}

// ---------------------------------------------------------------------------
// Discovery
// ---------------------------------------------------------------------------

/// The file is the transcript of a subagent: an `agent-*.jsonl` in a directory `subagents`.
pub open spec fn subagent_file(file: FoundFile) -> bool {
    &&& starts(file.name@, "agent-"@)
    &&& ends(file.name@, ".jsonl"@)
    &&& file.ancestors@.len() >= 2
    &&& file.ancestors@[0].name@ == "subagents"@
}

/// The member that a main transcript of these documents is.
pub open spec fn root_with(file: FoundFile, docs: Seq<(int, Tree)>) -> Member {
    let facts = TranscriptFacts::of(docs);
    Member {
        agent: Agent::Qoder,
        source_member_id: match facts.session_id {
            Some(id) => id,
            None => stem_of(file.name@),
        },
        kind: DiscoveredMemberKind::Root,
        parent_source_member_id: None,
        root_hint: None,
        source_kind: "qoder_transcript"@,
        source_path: file.path@,
        cwd: facts.cwd,
        started_at: facts.started_at,
        last_activity_at: first_of(file.modified.deep_view(), facts.last_ts),
        native_title: None,
        first_user_text: facts.first_user_text,
        first_agent_text: facts.first_agent_text,
        metadata: Tree::Object(Seq::empty()),
    }
}

/// The member that a main transcript is.
pub open spec fn root_of(file: FoundFile) -> Member {
    root_with(file, documents(file.data@))
}

/// The member that a subagent's transcript of these documents is: a child of the session that its
/// lines name, known by that session and the file name.
pub open spec fn child_with(file: FoundFile, docs: Seq<(int, Tree)>) -> Option<Member>
    recommends
        subagent_file(file),
{
    match session_id_among(docs) {
        None => None,
        Some(root) => Some(
            Member {
                agent: Agent::Qoder,
                source_member_id: root + ":subagent:"@ + stem_of(file.name@),
                kind: DiscoveredMemberKind::Child,
                parent_source_member_id: Some(root),
                root_hint: Some(root),
                source_kind: "qoder_subagent_transcript"@,
                source_path: file.path@,
                cwd: None,
                started_at: None,
                last_activity_at: file.modified.deep_view(),
                native_title: None,
                first_user_text: None,
                first_agent_text: None,
                metadata: Tree::Object(
                    seq![("session_dir"@, Tree::Text(file.ancestors@[1].path@))],
                ),
            },
        ),
    }
}

/// The member that a subagent's transcript is.
pub open spec fn child_of(file: FoundFile) -> Option<Member>
    recommends
        subagent_file(file),
{
    child_with(file, documents(file.data@))
}

/// The member that discovery finds in a file. The place decides for a subagent's transcript,
/// whose lines could be those of `claude_code`; the content decides for any other.
pub open spec fn discovered(file: FoundFile) -> Option<Member> {
    if !jsonl_file(file.name@) {
        None
    } else if subagent_file(file) {
        child_of(file)
    } else if format_of(texts(file.head@), MAX_PARSE_LINES as int) == Some(Agent::Qoder) {
        Some(root_of(file))
    } else {
        None
    }
}

fn session_dir_metadata(dir: &str) -> (r: Json)
    ensures
        r.tree() == Tree::Object(seq![("session_dir"@, Tree::Text(dir@))]),
{
    broadcast use object_tree;

    let mut fields: Vec<(String, Json)> = Vec::new();
    fields.push(("session_dir".to_owned(), Json::Text(dir.to_owned())));
    assert(named_trees(fields@) =~= seq![("session_dir"@, Tree::Text(dir@))]);
    Json::Object(fields)
}

impl QoderAdapter {
    /// The session id that a transcript's lines repeat.
    pub fn transcript_session_id(data: &[u8]) -> (r: Option<String>)
        ensures
            r.deep_view() == session_id_among(documents(data@)),
    {
        QoderAdapter::session_id_in(&read_documents(data))
    }

    /// The first session id among documents that is not empty.
    pub fn session_id_in(docs: &Vec<(usize, Json)>) -> (r: Option<String>)
        ensures
            r.deep_view() == session_id_among(document_views(docs@)),
    {
        let ghost all = document_views(docs@);
        let mut i: usize = 0;
        assert(all.skip(0) =~= all);
        while i < docs.len()
            invariant
                i <= docs@.len(),
                all == document_views(docs@),
                session_id_among(all) == session_id_among(all.skip(i as int)),
            decreases docs@.len() - i,
        {
            assert(all.skip(i as int).drop_first() =~= all.skip(i + 1));
            assert(all.skip(i as int)[0].1 == docs@[i as int].1.tree());
            match solid_string_at(&docs[i].1, "sessionId") {
                Some(id) => {
                    return Some(id);
                },
                None => {},
            }
            i = i + 1;
        }
        None
    }

    /// Whether a file is the transcript of a subagent.
    pub fn subagent_member(file: &FoundFile) -> (r: bool)
        ensures
            r == subagent_file(*file),
    {
        starts_with(file.name.as_str(), "agent-") && ends_with(file.name.as_str(), ".jsonl")
            && file.ancestors.len() >= 2 && same(file.ancestors[0].name.as_str(), "subagents")
    }

    /// The member that a main transcript is.
    pub fn parse_root_member(file: &FoundFile) -> (r: DiscoveredMember)
        ensures
            r.deep_view() == root_of(*file),
    {
        QoderAdapter::root_from(file, &read_documents(file.data.as_slice()))
    }

    /// The member that a main transcript of these documents is, each with the number of its line.
    pub fn root_from(file: &FoundFile, docs: &Vec<(usize, Json)>) -> (r: DiscoveredMember)
        ensures
            r.deep_view() == root_with(*file, document_views(docs@)),
    {
        let ghost all = document_views(docs@);
        let mut facts = Transcript {
            session_id: None,
            cwd: None,
            started_at: None,
            last_ts: None,
            first_user_text: None,
            first_agent_text: None,
        };
        let mut i: usize = 0;
        assert(all.take(0) =~= Seq::<(int, Tree)>::empty());
        while i < docs.len()
            invariant
                i <= docs@.len(),
                all == document_views(docs@),
                facts.deep_view() == TranscriptFacts::of(all.take(i as int)),
            decreases docs@.len() - i,
        {
            assert(all.take(i + 1).drop_last() =~= all.take(i as int));
            assert(all.take(i + 1).last().1 == docs@[i as int].1.tree());
            facts.note(&docs[i].1);
            i = i + 1;
        }
        assert(all.take(i as int) =~= all);
        let id: String = match facts.session_id {
            Some(id) => id,
            None => file_stem(file.name.as_str()),
        };
        DiscoveredMember {
            agent: Agent::Qoder,
            source_member_id: id,
            kind: DiscoveredMemberKind::Root,
            parent_source_member_id: None,
            root_hint: None,
            source_kind: "qoder_transcript".to_owned(),
            source_path: file.path.clone(),
            cwd: facts.cwd,
            started_at: facts.started_at,
            last_activity_at: first_text(copy_text(&file.modified), facts.last_ts),
            native_title: None,
            first_user_text: facts.first_user_text,
            first_agent_text: facts.first_agent_text,
            metadata: empty_object(),
        }
    }

    /// The member that a subagent's transcript is.
    pub fn parse_subagent_member(file: &FoundFile) -> (r: Option<DiscoveredMember>)
        requires
            subagent_file(*file),
        ensures
            r.deep_view() == child_of(*file),
    {
        QoderAdapter::child_from(file, &read_documents(file.data.as_slice()))
    }

    /// The member that a subagent's transcript of these documents is, each with the number of its
    /// line.
    pub fn child_from(file: &FoundFile, docs: &Vec<(usize, Json)>) -> (r: Option<DiscoveredMember>)
        requires
            subagent_file(*file),
        ensures
            r.deep_view() == child_with(*file, document_views(docs@)),
    {
        let root: String = match QoderAdapter::session_id_in(docs) {
            Some(root) => root,
            None => {
                return None;
            },
        };
        let mut id: String = root.clone();
        id.append(":subagent:");
        id.append(file_stem(file.name.as_str()).as_str());
        Some(
            DiscoveredMember {
                agent: Agent::Qoder,
                source_member_id: id,
                kind: DiscoveredMemberKind::Child,
                parent_source_member_id: Some(root.clone()),
                root_hint: Some(root),
                source_kind: "qoder_subagent_transcript".to_owned(),
                source_path: file.path.clone(),
                cwd: None,
                started_at: None,
                last_activity_at: copy_text(&file.modified),
                native_title: None,
                first_user_text: None,
                first_agent_text: None,
                metadata: session_dir_metadata(file.ancestors[1].path.as_str()),
            },
        )
    }

    /// The member that discovery finds in a file. The title of a root is in another store, under
    /// the id that is found here.
    pub fn discover_member(file: &FoundFile) -> (r: Option<DiscoveredMember>)
        ensures
            r.deep_view() == discovered(*file),
    {
        if !is_jsonl_file(file.name.as_str()) {
            return None;
        }
        if QoderAdapter::subagent_member(file) {
            return QoderAdapter::parse_subagent_member(file);
        }
        match detect_format(&file.head) {
            Some(Agent::Qoder) => Some(QoderAdapter::parse_root_member(file)),
            _ => None,
        }
    }
}

// ---------------------------------------------------------------------------
// Lines
// ---------------------------------------------------------------------------

/// The lines of a transcript; those of a root speak, those of any other member only count.
pub struct QoderLines {
    pub is_root: bool,
}

/// What a line of a transcript counts: a user line with a tool's result is a completed call.
pub open spec fn counts_of(v: Tree) -> MemberObservation {
    MemberObservation {
        tool_calls: if v.text_at("type"@) == Some("user"@) && v.has("toolUseResult"@) {
            1
        } else {
            0
        },
        tool_errors: 0,
        compactions: 0,
        side_activity: if on_side_chain(v) {
            1
        } else {
            0
        },
    }
}

/// The model that a line's message names; a notice that the editor made up itself has none.
pub open spec fn model_of(v: Tree) -> Option<Seq<char>> {
    match v.field_or_null("message"@).text_at("model"@) {
        Some(m) if m != "<synthetic>"@ => Some(m),
        _ => None,
    }
}

/// What a line of a transcript contributes.
pub open spec fn line_of(v: Tree, is_root: bool) -> Option<Line> {
    let text = said(v);
    let user = v.text_at("type"@) == Some("user"@);
    if user || v.text_at("type"@) == Some("assistant"@) {
        if on_side_chain(v) || blank(text) || !is_root || (user && injected(text)) {
            Some(counted(counts_of(v)))
        } else if user {
            Some(
                Line {
                    message: Some(message_of(v.text_at("uuid"@), SessionMessageRole::User, text)),
                    observation: counts_of(v),
                },
            )
        } else {
            Some(
                Line {
                    message: Some(
                        Message {
                            model: model_of(v),
                            ..message_of(v.text_at("uuid"@), SessionMessageRole::Assistant, text)
                        },
                    ),
                    observation: counts_of(v),
                },
            )
        }
    } else {
        None
    }
}

/// What a line of a transcript contributes.
pub fn parse_line(v: &Json, is_root: bool) -> (r: Option<ParsedLine>)
    ensures
        r.deep_view() == line_of(v.tree(), is_root),
{
    let user: bool = v.text_is("type", "user");
    if !user && !v.text_is("type", "assistant") {
        return None;
    }
    let text = prose_of_line(v);
    let side: bool = is_true(v, "isSidechain");
    let tool_calls: u64 = if user && v.has("toolUseResult") {
        1
    } else {
        0
    };
    let side_activity: u64 = if side {
        1
    } else {
        0
    };
    let observation = observed(tool_calls, 0, side_activity);
    if side || is_blank(text.as_str()) || !is_root {
        return Some(ParsedLine::observation_only(observation));
    }
    if user && is_injected_preamble(text.as_str()) {
        return Some(ParsedLine::observation_only(observation));
    }
    let id = v.string_at("uuid");
    if user {
        return Some(
            ParsedLine {
                message: Some(parsed_message(id, SessionMessageRole::User, text)),
                observation,
            },
        );
    }
    let model: Option<String> = match v.get("message") {
        Some(m) => match m.string_at("model") {
            Some(name) => {
                if same(name.as_str(), "<synthetic>") {
                    None
                } else {
                    Some(name)
                }
            },
            None => None,
        },
        None => None,
    };
    Some(
        ParsedLine {
            message: Some(
                parsed_message(id, SessionMessageRole::Assistant, text).with_provenance(
                    None,
                    model,
                ),
            ),
            observation,
        },
    )
}

impl LineFormat for QoderLines {
    open spec fn reading(&self, idx: int, v: Tree, state: Provenance) -> (
        Option<Line>,
        Provenance,
    ) {
        (line_of(v, self.is_root), state)
    }

    fn read_line(&self, idx: usize, v: &Json, state: &mut ProvenanceState) -> (r: Option<
        ParsedLine,
    >) {
        parse_line(v, self.is_root)
    }
}

impl QoderAdapter {
    /// Reads what a transcript holds beyond its cursor.
    pub fn read_member_delta(
        relation: SessionMemberRelation,
        file: &SourceFile,
        cursor: &SessionMemberCursor,
    ) -> (r: MemberReadDelta)
        requires
            cursor.generation < i64::MAX,
        ensures
            r.deep_view() == delta_of(
                QoderLines { is_root: relation is Root },
                *file,
                *cursor,
                StatsCapabilities {
                    tool_calls: true,
                    tool_errors: false,
                    compactions: false,
                    side_activity: true,
                },
                Provenance::unknown(),
            ),
    {
        let lines = QoderLines { is_root: matches!(relation, SessionMemberRelation::Root) };
        read_jsonl_delta(file, cursor, StatsCapabilities::tool_and_side_activity(), &lines)
    }

    /// A new session cannot be launched.
    pub fn build_new_command() -> (r: Result<AgentCommand, AppError>)
        ensures
            r matches Err(e) && e.deep_view() == Fault::Other(
                "Qoder 没有可启动的 CLI，无法新建会话"@,
            ),
    {
        Err(other("Qoder 没有可启动的 CLI，无法新建会话"))
    }

    /// A session cannot be continued.
    pub fn build_resume_command() -> (r: Result<AgentCommand, AppError>)
        ensures
            r matches Err(e) && e.deep_view() == Fault::Other(
                "Qoder 没有可启动的 CLI，无法恢复会话"@,
            ),
    {
        Err(other("Qoder 没有可启动的 CLI，无法恢复会话"))
    }

    /// One answer cannot be asked for.
    pub fn build_exec_command() -> (r: Result<AgentCommand, AppError>)
        ensures
            r matches Err(e) && e.deep_view() == Fault::Other(
                "Qoder 没有可启动的 CLI，无法一次性执行"@,
            ),
    {
        Err(other("Qoder 没有可启动的 CLI，无法一次性执行"))
    }
}

// ---------------------------------------------------------------------------
// Laws
// ---------------------------------------------------------------------------

/// A member that is not a root never speaks.
pub proof fn only_a_root_speaks(v: Tree)
    ensures
        line_of(v, false) matches Some(l) ==> l.message is None,
{
}

/// A subagent's transcript is a child of the session that its lines name, and carries no title.
pub proof fn a_subagent_is_an_untitled_child(file: FoundFile)
    requires
        subagent_file(file),
    ensures
        discovered(file) matches Some(m) ==> {
            &&& m.kind is Child
            &&& m.parent_source_member_id == session_id_among(documents(file.data@))
            &&& m.native_title is None
            &&& m.first_user_text is None
            &&& m.first_agent_text is None
        },
{
}

// ---------------------------------------------------------------------------
// Discovery among files
// ---------------------------------------------------------------------------

/// A row of the table in which Qoder keeps what it shows of its sessions.
pub struct TitleRow {
    pub session_id: String,
    pub title: String,
    pub extra_json: Option<String>,
}

/// The titles that Qoder itself shows. Without the table there are no rows, and so no titles.
pub struct SessionTitles {
    pub rows: Vec<TitleRow>,
}

/// The title of a session: what its first row tells.
pub open spec fn title_in(rows: Seq<TitleRow>, id: Seq<char>) -> Option<Seq<char>>
    decreases rows.len(),
{
    if rows.len() == 0 {
        None
    } else if rows.first().session_id@ == id {
        row_title(rows.first().title@, rows.first().extra_json.deep_view())
    } else {
        title_in(rows.drop_first(), id)
    }
}

/// The member that discovery finds in a file, with the title that Qoder shows: a root gets one,
/// a subagent does not.
pub open spec fn titled_member(file: FoundFile, rows: Seq<TitleRow>) -> Option<Member> {
    match discovered(file) {
        None => None,
        Some(m) => if subagent_file(file) {
            Some(m)
        } else {
            Some(Member { native_title: title_in(rows, m.source_member_id), ..m })
        },
    }
}

impl SessionTitles {
    /// The title of a session.
    pub fn title_for(&self, session_id: &str) -> (r: Option<String>)
        ensures
            r.deep_view() == title_in(self.rows@, session_id@),
    {
        let mut i: usize = 0;
        assert(self.rows@.skip(0) =~= self.rows@);
        while i < self.rows.len()
            invariant
                i <= self.rows@.len(),
                title_in(self.rows@, session_id@) == title_in(
                    self.rows@.skip(i as int),
                    session_id@,
                ),
            decreases self.rows@.len() - i,
        {
            assert(self.rows@.skip(i as int).first() == self.rows@[i as int]);
            assert(self.rows@.skip(i as int).drop_first() =~= self.rows@.skip(i + 1));
            if same(self.rows[i].session_id.as_str(), session_id) {
                return title_of_row(self.rows[i].title.as_str(), &self.rows[i].extra_json);
            }
            i = i + 1;
        }
        None
    }
}

impl MemberFinder for SessionTitles {
    open spec fn member(&self, file: FoundFile) -> Option<Member> {
        titled_member(file, self.rows@)
    }

    fn find(&self, file: &FoundFile) -> Option<DiscoveredMember> {
        match QoderAdapter::discover_member(file) {
            None => None,
            Some(mut m) => {
                if !QoderAdapter::subagent_member(file) {
                    m.native_title = self.title_for(m.source_member_id.as_str());
                }
                Some(m)
            },
        }
    }
}

impl QoderAdapter {
    /// The members among files, but for the files at the paths that did not change. `titles` are
    /// the titles that Qoder shows.
    pub fn discover_members_in(
        files: &Vec<FoundFile>,
        titles: &SessionTitles,
        unchanged: &Vec<String>,
    ) -> (r: Vec<DiscoveredMember>)
        ensures
            r.deep_view() == members_in(*titles, files@, texts(unchanged@)),
    {
        find_members(titles, files, unchanged)
    }
}

/// Whatever the files hold, no member of another agent is found among them.
pub proof fn no_other_agent_is_found(
    titles: SessionTitles,
    files: Seq<FoundFile>,
    unchanged: Seq<Seq<char>>,
)
    ensures
        forall|k: int|
            0 <= k < members_in(titles, files, unchanged).len() ==> (#[trigger] members_in(
                titles,
                files,
                unchanged,
            )[k]).agent == Agent::Qoder,
{
    members_are_of_one_agent(titles, files, unchanged, Agent::Qoder);
}

} // verus!
