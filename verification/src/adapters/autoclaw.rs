//! AutoClaw: `agents/<agentId>/sessions/<uuid>.jsonl`.
//!
//! The bytes of a transcript are Pi's, so the place is what tells them apart: a transcript is
//! AutoClaw's when it stands in AutoClaw's directories and begins with the session header. Its
//! program cannot be launched from here, so its history is read and nothing more.
use crate::adapters::content::{
    blocks_in, count_blocks, document_views, documents, first_of, first_text, observed,
    one_compaction, prose_of, read_documents, solid_string_at, solid_text_at, tool_calls_seen,
    Blocks,
};
use crate::adapters::discovery::{
    find_members, members_are_of_one_agent, members_in, MemberFinder,
};
use crate::adapters::pi::{role_of, said};
use crate::adapters::reader::{
    delta_of, read_jsonl_delta, LineFormat, MemberReadDelta, Provenance, ProvenanceState,
    SourceFile, StatsCapabilities,
};
use crate::adapters::{
    counted, injected, is_injected_preamble, message_of, parsed_message, shortened, truncate_text,
    AgentCommand, DiscoveredMember, DiscoveredMemberKind, Line, Member, ParsedLine,
};
use crate::domain::{
    copy_text, Agent, SessionMemberCursor, SessionMemberRelation, SessionMessageRole,
};
use crate::error::{other, AppError, Fault};
use crate::json::{named_trees, object_tree, Json, Tree};
use crate::paths::FoundFile;
use crate::text::{blank, contains, ends, ends_with, has_text, is_blank, same, texts};
use vstd::prelude::*;

verus! {

/// The adapter for AutoClaw.
pub struct AutoClawAdapter;

// ---------------------------------------------------------------------------
// Place
// ---------------------------------------------------------------------------

/// The agent that a transcript belongs to, told from where it stands: `.jsonl`, not a trace of
/// the runtime, in `agents/<agent>/sessions/`.
pub open spec fn agent_of_place(file: FoundFile) -> Option<Seq<char>> {
    if ends(file.name@, ".jsonl"@) && !has_text(file.name@, ".trajectory"@)
        && file.ancestors@.len() >= 3 && file.ancestors@[0].name@ == "sessions"@
        && file.ancestors@[2].name@ == "agents"@ {
        Some(file.ancestors@[1].name@)
    } else {
        None
    }
}

// ---------------------------------------------------------------------------
// Facts of a transcript
// ---------------------------------------------------------------------------

/// What the documents of a transcript say about it.
pub struct Transcript {
    pub refused: bool,
    pub header_id: Option<String>,
    pub cwd: Option<String>,
    pub started_at: Option<String>,
    pub last_ts: Option<String>,
    pub first_user_text: Option<String>,
    pub first_agent_text: Option<String>,
}

/// What the documents of a transcript say about it, as a mathematical value.
pub struct TranscriptFacts {
    pub refused: bool,
    pub header_id: Option<Seq<char>>,
    pub cwd: Option<Seq<char>>,
    pub started_at: Option<Seq<char>>,
    pub last_ts: Option<Seq<char>>,
    pub first_user_text: Option<Seq<char>>,
    pub first_agent_text: Option<Seq<char>>,
}

impl DeepView for Transcript {
    type V = TranscriptFacts;

    open spec fn deep_view(&self) -> TranscriptFacts {
        TranscriptFacts {
            refused: self.refused,
            header_id: self.header_id.deep_view(),
            cwd: self.cwd.deep_view(),
            started_at: self.started_at.deep_view(),
            last_ts: self.last_ts.deep_view(),
            first_user_text: self.first_user_text.deep_view(),
            first_agent_text: self.first_agent_text.deep_view(),
        }
    }
}

impl TranscriptFacts {
    /// Nothing known yet.
    pub open spec fn none() -> TranscriptFacts {
        TranscriptFacts {
            refused: false,
            header_id: None,
            cwd: None,
            started_at: None,
            last_ts: None,
            first_user_text: None,
            first_agent_text: None,
        }
    }

    /// After the time of a document.
    pub open spec fn timed(self, v: Tree) -> TranscriptFacts {
        TranscriptFacts {
            started_at: first_of(self.started_at, v.text_at("timestamp"@)),
            last_ts: first_of(v.text_at("timestamp"@), self.last_ts),
            ..self
        }
    }

    /// After the document of line `idx`. A session header that is not the first line, or that
    /// has no version or no id, means that the file is no transcript of AutoClaw's.
    pub open spec fn after(self, idx: int, v: Tree) -> TranscriptFacts {
        let text = said(v);
        let timed = self.timed(v);
        if self.refused {
            self
        } else if v.text_at("type"@) == Some("session"@) {
            if idx != 0 || !v.has("version"@) || !v.has("id"@) {
                TranscriptFacts { refused: true, ..timed }
            } else {
                TranscriptFacts {
                    header_id: v.text_at("id"@),
                    cwd: solid_text_at(v, "cwd"@),
                    started_at: first_of(v.text_at("timestamp"@), timed.started_at),
                    ..timed
                }
            }
        } else if v.text_at("type"@) == Some("message"@) {
            TranscriptFacts {
                first_user_text: first_of(
                    self.first_user_text,
                    if role_of(v) == Some("user"@) && text.len() > 0 && !injected(text) {
                        Some(shortened(text, 400))
                    } else {
                        None
                    },
                ),
                first_agent_text: first_of(
                    self.first_agent_text,
                    if role_of(v) == Some("assistant"@) && text.len() > 0 {
                        Some(shortened(text, 400))
                    } else {
                        None
                    },
                ),
                ..timed
            }
        } else {
            timed
        }
    }

    /// What a transcript's documents say together.
    pub open spec fn of(docs: Seq<(int, Tree)>) -> TranscriptFacts
        decreases docs.len(),
    {
        if docs.len() == 0 {
            TranscriptFacts::none()
        } else {
            TranscriptFacts::of(docs.drop_last()).after(docs.last().0, docs.last().1)
        }
    }
}

impl Transcript {
    fn note(&mut self, idx: usize, v: &Json)
        ensures
            final(self).deep_view() == old(self).deep_view().after(idx as int, v.tree()),
    {
        if self.refused {
            return;
        }
        match v.string_at("timestamp") {
            Some(ts) => {
                if self.started_at.is_none() {
                    self.started_at = Some(ts.clone());
                }
                self.last_ts = Some(ts);
            },
            None => {},
        }
        if v.text_is("type", "session") {
            if idx != 0 || !v.has("version") || !v.has("id") {
                self.refused = true;
                return;
            }
            self.header_id = v.string_at("id");
            self.cwd = solid_string_at(v, "cwd");
            match v.string_at("timestamp") {
                Some(ts) => {
                    self.started_at = Some(ts);
                },
                None => {},
            }
        } else if v.text_is("type", "message") {
            let null = Json::Null;
            let message: &Json = match v.get("message") {
                Some(m) => m,
                None => &null,
            };
            let text = prose_of(message.get("content"), Blocks::Text);
            if self.first_user_text.is_none() && message.text_is("role", "user")
                && !text.as_str().is_empty() && !is_injected_preamble(text.as_str()) {
                self.first_user_text = Some(truncate_text(text.as_str(), 400));
            }
            if self.first_agent_text.is_none() && message.text_is("role", "assistant")
                && !text.as_str().is_empty() {
                self.first_agent_text = Some(truncate_text(text.as_str(), 400));
            }
        }
    }
}

// ---------------------------------------------------------------------------
// Discovery
// ---------------------------------------------------------------------------

/// The member that a transcript of these documents is, where its header identifies it. The agent
/// is part of the identity: two agents keep separate stores.
pub open spec fn member_with(
    file: FoundFile,
    agent: Seq<char>,
    docs: Seq<(int, Tree)>,
) -> Option<Member> {
    let facts = TranscriptFacts::of(docs);
    if facts.refused {
        None
    } else {
        match facts.header_id {
            None => None,
            Some(id) => Some(
                Member {
                    agent: Agent::AutoClaw,
                    source_member_id: agent + ":"@ + id,
                    kind: DiscoveredMemberKind::Root,
                    parent_source_member_id: None,
                    root_hint: None,
                    source_kind: "autoclaw_transcript"@,
                    source_path: file.path@,
                    cwd: facts.cwd,
                    started_at: facts.started_at,
                    last_activity_at: first_of(file.modified.deep_view(), facts.last_ts),
                    native_title: None,
                    first_user_text: facts.first_user_text,
                    first_agent_text: facts.first_agent_text,
                    metadata: Tree::Object(seq![("agent_id"@, Tree::Text(agent))]),
                },
            ),
        }
    }
}

/// The member that discovery finds in a file.
pub open spec fn discovered(file: FoundFile) -> Option<Member> {
    match agent_of_place(file) {
        Some(agent) => member_with(file, agent, documents(file.data@)),
        None => None,
    }
}

fn agent_metadata(agent: &str) -> (r: Json)
    ensures
        r.tree() == Tree::Object(seq![("agent_id"@, Tree::Text(agent@))]),
{
    broadcast use object_tree;

    let mut fields: Vec<(String, Json)> = Vec::new();
    fields.push(("agent_id".to_owned(), Json::Text(agent.to_owned())));
    assert(named_trees(fields@) =~= seq![("agent_id"@, Tree::Text(agent@))]);
    Json::Object(fields)
}

impl AutoClawAdapter {
    /// The agent that a transcript belongs to, told from where it stands.
    pub fn session_agent_id(file: &FoundFile) -> (r: Option<String>)
        ensures
            r.deep_view() == agent_of_place(*file),
    {
        if ends_with(file.name.as_str(), ".jsonl") && !contains(file.name.as_str(), ".trajectory")
            && file.ancestors.len() >= 3 && same(file.ancestors[0].name.as_str(), "sessions")
            && same(file.ancestors[2].name.as_str(), "agents") {
            Some(file.ancestors[1].name.clone())
        } else {
            None
        }
    }

    /// The member that a file is.
    pub fn parse_member(file: &FoundFile) -> (r: Option<DiscoveredMember>)
        ensures
            r.deep_view() == discovered(*file),
    {
        match AutoClawAdapter::session_agent_id(file) {
            Some(agent) => AutoClawAdapter::member_from(
                file,
                agent.as_str(),
                &read_documents(file.data.as_slice()),
            ),
            None => None,
        }
    }

    /// The member that an agent's transcript of these documents is, each with the number of its
    /// line.
    pub fn member_from(file: &FoundFile, agent: &str, docs: &Vec<(usize, Json)>) -> (r: Option<
        DiscoveredMember,
    >)
        ensures
            r.deep_view() == member_with(*file, agent@, document_views(docs@)),
    {
        let ghost all = document_views(docs@);
        let mut facts = Transcript {
            refused: false,
            header_id: None,
            cwd: None,
            started_at: None,
            last_ts: None,
            first_user_text: None,
            first_agent_text: None,
        };
        let mut i: usize = 0;
        assert(all.take(0) =~= Seq::<(int, Tree)>::empty());
        while i < docs.len()
            invariant
                i <= docs@.len(),
                all == document_views(docs@),
                facts.deep_view() == TranscriptFacts::of(all.take(i as int)),
            decreases docs@.len() - i,
        {
            assert(all.take(i + 1).drop_last() =~= all.take(i as int));
            assert(all.take(i + 1).last() == (docs@[i as int].0 as int, docs@[i as int].1.tree()));
            facts.note(docs[i].0, &docs[i].1);
            i = i + 1;
        }
        assert(all.take(i as int) =~= all);
        if facts.refused {
            return None;
        }
        let id: String = match facts.header_id {
            Some(id) => id,
            None => {
                return None;
            },
        };
        let mut member_id: String = agent.to_owned();
        member_id.append(":");
        member_id.append(id.as_str());
        Some(
            DiscoveredMember {
                agent: Agent::AutoClaw,
                source_member_id: member_id,
                kind: DiscoveredMemberKind::Root,
                parent_source_member_id: None,
                root_hint: None,
                source_kind: "autoclaw_transcript".to_owned(),
                source_path: file.path.clone(),
                cwd: facts.cwd,
                started_at: facts.started_at,
                last_activity_at: first_text(copy_text(&file.modified), facts.last_ts),
                native_title: None,
                first_user_text: facts.first_user_text,
                first_agent_text: facts.first_agent_text,
                metadata: agent_metadata(agent),
            },
        )
    }
}

// ---------------------------------------------------------------------------
// Lines
// ---------------------------------------------------------------------------

/// The lines of a transcript; those of a root speak, those of any other member only count.
pub struct AutoClawLines {
    pub is_root: bool,
}

/// What a line of a transcript contributes: its prose, with its tool calls counted.
pub open spec fn line_of(v: Tree, is_root: bool) -> Option<Line> {
    let content = v.field_or_null("message"@).field_or_null("content"@);
    let text = said(v);
    let calls = blocks_in(content, "toolCall"@) as u64;
    if v.text_at("type"@) == Some("message"@) {
        if blank(text) {
            if calls == 0 {
                None
            } else {
                Some(counted(tool_calls_seen(calls)))
            }
        } else if is_root && role_of(v) == Some("user"@) && !injected(text) {
            Some(
                Line {
                    message: Some(message_of(v.text_at("id"@), SessionMessageRole::User, text)),
                    observation: tool_calls_seen(calls),
                },
            )
        } else if is_root && role_of(v) == Some("assistant"@) {
            Some(
                Line {
                    message: Some(
                        message_of(v.text_at("id"@), SessionMessageRole::Assistant, text),
                    ),
                    observation: tool_calls_seen(calls),
                },
            )
        } else {
            Some(counted(tool_calls_seen(calls)))
        }
    } else if v.text_at("type"@) == Some("compaction"@) || v.text_at("type"@) == Some("compact"@) {
        Some(counted(one_compaction()))
    } else {
        None
    }
}

/// What a line of a transcript contributes.
pub fn parse_line(v: &Json, is_root: bool) -> (r: Option<ParsedLine>)
    ensures
        r.deep_view() == line_of(v.tree(), is_root),
{
    if v.text_is("type", "message") {
        let null = Json::Null;
        let message: &Json = match v.get("message") {
            Some(m) => m,
            None => &null,
        };
        let text = prose_of(message.get("content"), Blocks::Text);
        let calls: u64 = count_blocks(message.get("content"), "toolCall");
        let observation = observed(calls, 0, 0);
        if is_blank(text.as_str()) {
            return if calls == 0 {
                None
            } else {
                Some(ParsedLine::observation_only(observation))
            };
        }
        let id = v.string_at("id");
        if is_root && message.text_is("role", "user") && !is_injected_preamble(text.as_str()) {
            Some(
                ParsedLine {
                    message: Some(parsed_message(id, SessionMessageRole::User, text)),
                    observation,
                },
            )
        } else if is_root && message.text_is("role", "assistant") {
            Some(
                ParsedLine {
                    message: Some(parsed_message(id, SessionMessageRole::Assistant, text)),
                    observation,
                },
            )
        } else {
            Some(ParsedLine::observation_only(observation))
        }
    } else if v.text_is("type", "compaction") || v.text_is("type", "compact") {
        Some(ParsedLine::observation_only(observed(0, 1, 0)))
    } else {
        None
    }
}

impl LineFormat for AutoClawLines {
    open spec fn reading(&self, idx: int, v: Tree, state: Provenance) -> (
        Option<Line>,
        Provenance,
    ) {
        (line_of(v, self.is_root), state)
    }

    fn read_line(&self, idx: usize, v: &Json, state: &mut ProvenanceState) -> (r: Option<
        ParsedLine,
    >) {
        parse_line(v, self.is_root)
    }
}

impl AutoClawAdapter {
    /// Reads what a transcript holds beyond its cursor.
    pub fn read_member_delta(
        relation: SessionMemberRelation,
        file: &SourceFile,
        cursor: &SessionMemberCursor,
    ) -> (r: MemberReadDelta)
        requires
            cursor.generation < i64::MAX,
        ensures
            r.deep_view() == delta_of(
                AutoClawLines { is_root: relation is Root },
                *file,
                *cursor,
                StatsCapabilities {
                    tool_calls: true,
                    tool_errors: false,
                    compactions: true,
                    side_activity: false,
                },
                Provenance::unknown(),
            ),
    {
        let lines = AutoClawLines { is_root: matches!(relation, SessionMemberRelation::Root) };
        read_jsonl_delta(file, cursor, StatsCapabilities::tool_and_compaction(), &lines)
    }

    /// A new session cannot be launched.
    pub fn build_new_command() -> (r: Result<AgentCommand, AppError>)
        ensures
            r matches Err(e) && e.deep_view() == Fault::Other(
                "AutoClaw 的 CLI 需要 OPENCLAW_STATE_DIR 才能找到自己的状态目录，NoEnding 暂时无法安全启动它"@,
            ),
    {
        Err(
            other(
                "AutoClaw 的 CLI 需要 OPENCLAW_STATE_DIR 才能找到自己的状态目录，NoEnding 暂时无法安全启动它",
            ),
        )
    }

    /// A session cannot be continued.
    pub fn build_resume_command() -> (r: Result<AgentCommand, AppError>)
        ensures
            r matches Err(e) && e.deep_view() == Fault::Other(
                "AutoClaw 的 CLI 需要 OPENCLAW_STATE_DIR 才能找到自己的状态目录，NoEnding 暂时无法安全恢复它"@,
            ),
    {
        Err(
            other(
                "AutoClaw 的 CLI 需要 OPENCLAW_STATE_DIR 才能找到自己的状态目录，NoEnding 暂时无法安全恢复它",
            ),
        )
    }

    /// One answer cannot be asked for.
    pub fn build_exec_command() -> (r: Result<AgentCommand, AppError>)
        ensures
            r matches Err(e) && e.deep_view() == Fault::Other(
                "AutoClaw 的 CLI 需要 OPENCLAW_STATE_DIR 才能找到自己的状态目录，NoEnding 暂时无法安全执行它"@,
            ),
    {
        Err(
            other(
                "AutoClaw 的 CLI 需要 OPENCLAW_STATE_DIR 才能找到自己的状态目录，NoEnding 暂时无法安全执行它",
            ),
        )
    }
}

// ---------------------------------------------------------------------------
// Laws
// ---------------------------------------------------------------------------

/// A member that is not a root never speaks.
pub proof fn only_a_root_speaks(v: Tree)
    ensures
        line_of(v, false) matches Some(l) ==> l.message is None,
{
}

/// A file outside AutoClaw's directories is never claimed, whatever it holds.
pub proof fn the_place_is_required(file: FoundFile)
    requires
        agent_of_place(file) is None,
    ensures
        discovered(file) is None,
{
}

// ---------------------------------------------------------------------------
// Discovery among files
// ---------------------------------------------------------------------------

impl MemberFinder for AutoClawAdapter {
    open spec fn member(&self, file: FoundFile) -> Option<Member> {
        discovered(file)
    }

    fn find(&self, file: &FoundFile) -> Option<DiscoveredMember> {
        AutoClawAdapter::parse_member(file)
    }
}

impl AutoClawAdapter {
    /// The members among files, but for the files at the paths that did not change.
    pub fn discover_members_in(files: &Vec<FoundFile>, unchanged: &Vec<String>) -> (r: Vec<
        DiscoveredMember,
    >)
        ensures
            r.deep_view() == members_in(AutoClawAdapter, files@, texts(unchanged@)),
    {
        find_members(&AutoClawAdapter, files, unchanged)
    }
}

/// Whatever the files hold, no member of another agent is found among them.
pub proof fn no_other_agent_is_found(files: Seq<FoundFile>, unchanged: Seq<Seq<char>>)
    ensures
        forall|k: int|
            0 <= k < members_in(AutoClawAdapter, files, unchanged).len() ==> (#[trigger] members_in(
                AutoClawAdapter,
                files,
                unchanged,
            )[k]).agent == Agent::AutoClaw,
{
    members_are_of_one_agent(AutoClawAdapter, files, unchanged, Agent::AutoClaw);
}

} // verus!
