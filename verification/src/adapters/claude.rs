//! The transcripts of `claude_code`: `projects/<encoded-cwd>/<session>.jsonl`.
//!
//! The transcript is the root of its session. Lines of a side chain stand in the same file
//! without an identity of their own: they are counted as side activity, and their text is never
//! conversation.
use crate::adapters::content::{
    blocks_in, count_blocks, document_views, documents, empty_object, first_of, first_text,
    is_jsonl_file, is_true, jsonl_file, observed, one_compaction, one_side_activity, prose,
    prose_of, read_documents, solid_string_at, solid_text_at, tool_calls_seen, Blocks,
};
use crate::adapters::discovery::{
    find_members, members_are_of_one_agent, members_in, MemberFinder,
};
use crate::adapters::fingerprint::{detect_format, format_of, MAX_PARSE_LINES};
use crate::adapters::reader::{
    delta_of, read_jsonl_delta, LineFormat, MemberReadDelta, Provenance, ProvenanceState,
    SourceFile, StatsCapabilities,
};
use crate::adapters::{
    add_flag, add_word, counted, flag, injected, is_injected_preamble, message_of, parsed_message,
    shortened, truncate_text, AgentCommand, CommandLine, DiscoveredMember, DiscoveredMemberKind,
    ExecOptions, Line, Member, ParsedLine,
};
use crate::domain::{
    copy_text, Agent, AgentInstallation, Message, SessionMemberCursor, SessionMemberRelation,
    SessionMessageRole,
};
use crate::json::{Json, Tree};
use crate::paths::{extension_of, file_stem, stem_of, FoundFile};
use crate::text::{blank, is_blank, texts};
use vstd::prelude::*;

verus! {

/// The adapter for `claude_code`.
pub struct ClaudeAdapter;

// ---------------------------------------------------------------------------
// Facts of a transcript
// ---------------------------------------------------------------------------

/// What the documents of a transcript say about it.
pub struct Transcript {
    pub session_id: Option<String>,
    pub cwd: Option<String>,
    pub started_at: Option<String>,
    pub last_ts: Option<String>,
    pub first_user_text: Option<String>,
    pub first_agent_text: Option<String>,
}

/// What the documents of a transcript say about it, as a mathematical value.
pub struct TranscriptFacts {
    pub session_id: Option<Seq<char>>,
    pub cwd: Option<Seq<char>>,
    pub started_at: Option<Seq<char>>,
    pub last_ts: Option<Seq<char>>,
    pub first_user_text: Option<Seq<char>>,
    pub first_agent_text: Option<Seq<char>>,
}

impl DeepView for Transcript {
    type V = TranscriptFacts;

    open spec fn deep_view(&self) -> TranscriptFacts {
        TranscriptFacts {
            session_id: self.session_id.deep_view(),
            cwd: self.cwd.deep_view(),
            started_at: self.started_at.deep_view(),
            last_ts: self.last_ts.deep_view(),
            first_user_text: self.first_user_text.deep_view(),
            first_agent_text: self.first_agent_text.deep_view(),
        }
    }
}

/// The prose of a line's message.
pub open spec fn said(v: Tree) -> Seq<char> {
    prose(v.field_or_null("message"@).field_or_null("content"@), Blocks::Text)
}

/// The prose of a line's message.
pub(crate) fn prose_of_line(v: &Json) -> (r: String)
    ensures
        r@ == said(v.tree()),
{
    match v.get("message") {
        Some(m) => prose_of(m.get("content"), Blocks::Text),
        None => String::new(),
    }
}

/// The line belongs to a side chain.
pub open spec fn on_side_chain(v: Tree) -> bool {
    v.truth_at("isSidechain"@) == Some(true)
}

/// The line is output of the runtime.
pub open spec fn is_meta(v: Tree) -> bool {
    v.truth_at("isMeta"@) == Some(true)
}

/// The line's type is `kind`, and it does not belong to a side chain.
pub open spec fn on_main_chain(v: Tree, kind: Seq<char>) -> bool {
    v.text_at("type"@) == Some(kind) && !on_side_chain(v)
}

impl TranscriptFacts {
    /// Nothing known yet.
    pub open spec fn none() -> TranscriptFacts {
        TranscriptFacts {
            session_id: None,
            cwd: None,
            started_at: None,
            last_ts: None,
            first_user_text: None,
            first_agent_text: None,
        }
    }

    /// After one more document.
    pub open spec fn after(self, v: Tree) -> TranscriptFacts {
        let text = said(v);
        TranscriptFacts {
            session_id: first_of(self.session_id, v.text_at("sessionId"@)),
            cwd: first_of(self.cwd, solid_text_at(v, "cwd"@)),
            started_at: first_of(self.started_at, v.text_at("timestamp"@)),
            last_ts: v.text_at("timestamp"@),
            first_user_text: first_of(
                self.first_user_text,
                if on_main_chain(v, "user"@) && !is_meta(v) && text.len() > 0 && !injected(text) {
                    Some(shortened(text, 400))
                } else {
                    None
                },
            ),
            first_agent_text: first_of(
                self.first_agent_text,
                if on_main_chain(v, "assistant"@) && text.len() > 0 {
                    Some(shortened(text, 400))
                } else {
                    None
                },
            ),
        }
    }

    /// What a transcript's documents say together.
    pub open spec fn of(docs: Seq<(int, Tree)>) -> TranscriptFacts
        decreases docs.len(),
    {
        if docs.len() == 0 {
            TranscriptFacts::none()
        } else {
            TranscriptFacts::of(docs.drop_last()).after(docs.last().1)
        }
    }
}

impl Transcript {
    fn note(&mut self, v: &Json)
        ensures
            final(self).deep_view() == old(self).deep_view().after(v.tree()),
    {
        if self.cwd.is_none() {
            self.cwd = solid_string_at(v, "cwd");
        }
        if self.session_id.is_none() {
            self.session_id = v.string_at("sessionId");
        }
        if self.started_at.is_none() {
            self.started_at = v.string_at("timestamp");
        }
        self.last_ts = v.string_at("timestamp");
        let side: bool = is_true(v, "isSidechain");
        if self.first_user_text.is_none() && v.text_is("type", "user") && !side && !is_true(
            v,
            "isMeta",
        ) {
            let text = prose_of_line(v);
            if !text.as_str().is_empty() && !is_injected_preamble(text.as_str()) {
                self.first_user_text = Some(truncate_text(text.as_str(), 400));
            }
        }
        if self.first_agent_text.is_none() && v.text_is("type", "assistant") && !side {
            let text = prose_of_line(v);
            if !text.as_str().is_empty() {
                self.first_agent_text = Some(truncate_text(text.as_str(), 400));
            }
        }
    }
}

// ---------------------------------------------------------------------------
// Discovery
// ---------------------------------------------------------------------------

/// The member that a transcript of these documents is. A transcript that names no session goes by
/// its file name.
pub open spec fn member_with(file: FoundFile, docs: Seq<(int, Tree)>) -> Member {
    let facts = TranscriptFacts::of(docs);
    Member {
        agent: Agent::ClaudeCode,
        source_member_id: match facts.session_id {
            Some(id) => id,
            None => stem_of(file.name@),
        },
        kind: DiscoveredMemberKind::Root,
        parent_source_member_id: None,
        root_hint: None,
        source_kind: "claude_code_transcript"@,
        source_path: file.path@,
        cwd: facts.cwd,
        started_at: facts.started_at,
        last_activity_at: first_of(file.modified.deep_view(), facts.last_ts),
        native_title: None,
        first_user_text: facts.first_user_text,
        first_agent_text: facts.first_agent_text,
        metadata: Tree::Object(Seq::empty()),
    }
}

/// The member that a transcript is.
pub open spec fn member_of(file: FoundFile) -> Member {
    member_with(file, documents(file.data@))
}

/// The member that discovery finds in a file: any `.jsonl` file whose content says so.
pub open spec fn discovered(file: FoundFile) -> Option<Member> {
    if jsonl_file(file.name@) && format_of(texts(file.head@), MAX_PARSE_LINES as int) == Some(
        Agent::ClaudeCode,
    ) {
        Some(member_of(file))
    } else {
        None
    }
}

impl ClaudeAdapter {
    /// The member that a transcript is.
    pub fn parse_member(file: &FoundFile) -> (r: DiscoveredMember)
        ensures
            r.deep_view() == member_of(*file),
    {
        ClaudeAdapter::member_from(file, &read_documents(file.data.as_slice()))
    }

    /// The member that a transcript of these documents is, each with the number of its line.
    pub fn member_from(file: &FoundFile, docs: &Vec<(usize, Json)>) -> (r: DiscoveredMember)
        ensures
            r.deep_view() == member_with(*file, document_views(docs@)),
    {
        let ghost all = document_views(docs@);
        let mut facts = Transcript {
            session_id: None,
            cwd: None,
            started_at: None,
            last_ts: None,
            first_user_text: None,
            first_agent_text: None,
        };
        let mut i: usize = 0;
        assert(all.take(0) =~= Seq::<(int, Tree)>::empty());
        while i < docs.len()
            invariant
                i <= docs@.len(),
                all == document_views(docs@),
                facts.deep_view() == TranscriptFacts::of(all.take(i as int)),
            decreases docs@.len() - i,
        {
            assert(all.take(i + 1).drop_last() =~= all.take(i as int));
            assert(all.take(i + 1).last().1 == docs@[i as int].1.tree());
            facts.note(&docs[i].1);
            i = i + 1;
        }
        assert(all.take(i as int) =~= all);
        let id: String = match facts.session_id {
            Some(id) => id,
            None => file_stem(file.name.as_str()),
        };
        DiscoveredMember {
            agent: Agent::ClaudeCode,
            source_member_id: id,
            kind: DiscoveredMemberKind::Root,
            parent_source_member_id: None,
            root_hint: None,
            source_kind: "claude_code_transcript".to_owned(),
            source_path: file.path.clone(),
            cwd: facts.cwd,
            started_at: facts.started_at,
            last_activity_at: first_text(copy_text(&file.modified), facts.last_ts),
            native_title: None,
            first_user_text: facts.first_user_text,
            first_agent_text: facts.first_agent_text,
            metadata: empty_object(),
        }
    }

    /// The member that discovery finds in a file.
    pub fn discover_member(file: &FoundFile) -> (r: Option<DiscoveredMember>)
        ensures
            r.deep_view() == discovered(*file),
    {
        if !is_jsonl_file(file.name.as_str()) {
            return None;
        }
        match detect_format(&file.head) {
            Some(Agent::ClaudeCode) => Some(ClaudeAdapter::parse_member(file)),
            _ => None,
        }
    }
}

// ---------------------------------------------------------------------------
// Lines
// ---------------------------------------------------------------------------

/// The lines of a transcript; those of a root speak, those of any other member only count.
pub struct ClaudeLines {
    pub is_root: bool,
}

/// What a line of a transcript contributes.
pub open spec fn line_of(v: Tree, is_root: bool) -> Option<Line> {
    let message = v.field_or_null("message"@);
    let text = said(v);
    let user = v.text_at("type"@) == Some("user"@);
    let calls = tool_calls_seen(blocks_in(message.field_or_null("content"@), "tool_use"@) as u64);
    if user || v.text_at("type"@) == Some("assistant"@) {
        if on_side_chain(v) {
            Some(counted(one_side_activity()))
        } else if blank(text) || is_meta(v) || !is_root || (user && injected(text)) {
            Some(counted(calls))
        } else if user {
            Some(
                Line {
                    message: Some(message_of(v.text_at("uuid"@), SessionMessageRole::User, text)),
                    observation: calls,
                },
            )
        } else {
            Some(
                Line {
                    message: Some(
                        Message {
                            model: message.text_at("model"@),
                            ..message_of(v.text_at("uuid"@), SessionMessageRole::Assistant, text)
                        },
                    ),
                    observation: calls,
                },
            )
        }
    } else if v.text_at("type"@) == Some("summary"@) {
        Some(counted(one_compaction()))
    } else {
        None
    }
}

/// What a line of a transcript contributes.
pub fn parse_line(v: &Json, is_root: bool) -> (r: Option<ParsedLine>)
    ensures
        r.deep_view() == line_of(v.tree(), is_root),
{
    let user: bool = v.text_is("type", "user");
    if user || v.text_is("type", "assistant") {
        if is_true(v, "isSidechain") {
            return Some(ParsedLine::observation_only(observed(0, 0, 1)));
        }
        let null = Json::Null;
        let message: &Json = match v.get("message") {
            Some(m) => m,
            None => &null,
        };
        let text = prose_of_line(v);
        let observation = observed(count_blocks(message.get("content"), "tool_use"), 0, 0);
        if is_blank(text.as_str()) || is_true(v, "isMeta") || !is_root {
            return Some(ParsedLine::observation_only(observation));
        }
        if user && is_injected_preamble(text.as_str()) {
            return Some(ParsedLine::observation_only(observation));
        }
        let id = v.string_at("uuid");
        if user {
            Some(
                ParsedLine {
                    message: Some(
                        parsed_message(id, SessionMessageRole::User, text).with_provenance(
                            None,
                            None,
                        ),
                    ),
                    observation,
                },
            )
        } else {
            Some(
                ParsedLine {
                    message: Some(
                        parsed_message(id, SessionMessageRole::Assistant, text).with_provenance(
                            None,
                            message.string_at("model"),
                        ),
                    ),
                    observation,
                },
            )
        }
    } else if v.text_is("type", "summary") {
        Some(ParsedLine::observation_only(observed(0, 1, 0)))
    } else {
        None
    }
}

impl LineFormat for ClaudeLines {
    open spec fn reading(&self, idx: int, v: Tree, state: Provenance) -> (
        Option<Line>,
        Provenance,
    ) {
        (line_of(v, self.is_root), state)
    }

    fn read_line(&self, idx: usize, v: &Json, state: &mut ProvenanceState) -> (r: Option<
        ParsedLine,
    >) {
        parse_line(v, self.is_root)
    }
}

impl ClaudeAdapter {
    /// Reads what a transcript holds beyond its cursor.
    pub fn read_member_delta(
        relation: SessionMemberRelation,
        file: &SourceFile,
        cursor: &SessionMemberCursor,
    ) -> (r: MemberReadDelta)
        requires
            cursor.generation < i64::MAX,
        ensures
            r.deep_view() == delta_of(
                ClaudeLines { is_root: relation is Root },
                *file,
                *cursor,
                StatsCapabilities {
                    tool_calls: true,
                    tool_errors: false,
                    compactions: true,
                    side_activity: true,
                },
                Provenance::unknown(),
            ),
    {
        let lines = ClaudeLines { is_root: matches!(relation, SessionMemberRelation::Root) };
        read_jsonl_delta(
            file,
            cursor,
            StatsCapabilities::tool_compaction_and_side_activity(),
            &lines,
        )
    }
}

// ---------------------------------------------------------------------------
// Commands
// ---------------------------------------------------------------------------

/// The overrides as the command line spells them. It has no way to choose a provider.
pub open spec fn runtime(opts: ExecOptions) -> Seq<Seq<char>> {
    flag("--model"@, opts.model.deep_view()) + flag("--effort"@, opts.effort.deep_view())
}

fn add_runtime(args: &mut Vec<String>, opts: &ExecOptions)
    ensures
        texts(final(args)@) == texts(old(args)@) + runtime(*opts),
{
    let ghost before = texts(args@);
    add_flag(args, "--model", &opts.model);
    add_flag(args, "--effort", &opts.effort);
    assert(texts(args@) =~= before + runtime(*opts));
}

impl ClaudeAdapter {
    /// The command line of a new session.
    pub fn build_new_command(
        install: &AgentInstallation,
        opts: &ExecOptions,
        cwd: &Option<String>,
    ) -> (r: AgentCommand)
        ensures
            r.deep_view() == (CommandLine {
                program: install.executable_path@,
                args: runtime(*opts),
                cwd: cwd.deep_view(),
            }),
    {
        let mut args: Vec<String> = Vec::new();
        add_runtime(&mut args, opts);
        assert(texts(args@) =~= runtime(*opts));
        AgentCommand { program: install.executable_path.clone(), args, cwd: copy_text(cwd) }
    }

    /// The command line that continues a session.
    pub fn build_resume_command(
        install: &AgentInstallation,
        opts: &ExecOptions,
        agent_session_id: &str,
        cwd: &Option<String>,
    ) -> (r: AgentCommand)
        ensures
            r.deep_view() == (CommandLine {
                program: install.executable_path@,
                args: seq!["--resume"@, agent_session_id@] + runtime(*opts),
                cwd: cwd.deep_view(),
            }),
    {
        let mut args: Vec<String> = Vec::new();
        add_word(&mut args, "--resume");
        add_word(&mut args, agent_session_id);
        assert(texts(args@) =~= seq!["--resume"@, agent_session_id@]);
        add_runtime(&mut args, opts);
        AgentCommand { program: install.executable_path.clone(), args, cwd: copy_text(cwd) }
    }

    /// The command line of one answer without a session.
    pub fn build_exec_command(install: &AgentInstallation, opts: &ExecOptions, prompt: &str) -> (r:
        AgentCommand)
        ensures
            r.deep_view() == (CommandLine {
                program: install.executable_path@,
                args: seq!["-p"@, "--output-format"@, "text"@] + runtime(*opts) + seq![prompt@],
                cwd: None,
            }),
    {
        let mut args: Vec<String> = Vec::new();
        add_word(&mut args, "-p");
        add_word(&mut args, "--output-format");
        add_word(&mut args, "text");
        assert(texts(args@) =~= seq!["-p"@, "--output-format"@, "text"@]);
        add_runtime(&mut args, opts);
        add_word(&mut args, prompt);
        assert(texts(args@) =~= seq!["-p"@, "--output-format"@, "text"@] + runtime(*opts)
            + seq![prompt@]);
        AgentCommand { program: install.executable_path.clone(), args, cwd: None }
    }

    /// The command line that extracts context: one answer that leaves no session behind, run in
    /// a directory of its own.
    pub fn build_context_extraction_command(
        install: &AgentInstallation,
        opts: &ExecOptions,
        prompt: &str,
        runtime_dir: &str,
    ) -> (r: AgentCommand)
        ensures
            r.deep_view() == (CommandLine {
                program: install.executable_path@,
                args: seq!["-p"@, "--no-session-persistence"@, "--output-format"@, "text"@]
                    + runtime(*opts) + seq![prompt@],
                cwd: Some(runtime_dir@),
            }),
    {
        let mut args: Vec<String> = Vec::new();
        add_word(&mut args, "-p");
        add_word(&mut args, "--no-session-persistence");
        add_word(&mut args, "--output-format");
        add_word(&mut args, "text");
        assert(texts(args@) =~= seq![
            "-p"@,
            "--no-session-persistence"@,
            "--output-format"@,
            "text"@,
        ]);
        add_runtime(&mut args, opts);
        add_word(&mut args, prompt);
        assert(texts(args@) =~= seq![
            "-p"@,
            "--no-session-persistence"@,
            "--output-format"@,
            "text"@,
        ] + runtime(*opts) + seq![prompt@]);
        AgentCommand {
            program: install.executable_path.clone(),
            args,
            cwd: Some(runtime_dir.to_owned()),
        }
    }
}

// ---------------------------------------------------------------------------
// Laws
// ---------------------------------------------------------------------------

/// Overrides that are left to the agent add nothing to its command line.
pub proof fn defaults_add_no_argument(opts: ExecOptions)
    requires
        opts.plain(),
    ensures
        runtime(opts).len() == 0,
{
}

/// A member that is not a root never speaks.
pub proof fn only_a_root_speaks(v: Tree)
    ensures
        line_of(v, false) matches Some(l) ==> l.message is None,
{
}

/// A line of a side chain is one side activity and nothing else.
pub proof fn a_side_chain_is_only_counted(v: Tree, is_root: bool)
    requires
        on_side_chain(v),
        v.text_at("type"@) == Some("user"@) || v.text_at("type"@) == Some("assistant"@),
    ensures
        line_of(v, is_root) == Some(counted(one_side_activity())),
{
}

// ---------------------------------------------------------------------------
// Discovery among files
// ---------------------------------------------------------------------------

impl MemberFinder for ClaudeAdapter {
    open spec fn member(&self, file: FoundFile) -> Option<Member> {
        discovered(file)
    }

    fn find(&self, file: &FoundFile) -> Option<DiscoveredMember> {
        ClaudeAdapter::discover_member(file)
    }
}

impl ClaudeAdapter {
    /// The members among files, but for the files at the paths that did not change.
    pub fn discover_members_in(files: &Vec<FoundFile>, unchanged: &Vec<String>) -> (r: Vec<
        DiscoveredMember,
    >)
        ensures
            r.deep_view() == members_in(ClaudeAdapter, files@, texts(unchanged@)),
    {
        find_members(&ClaudeAdapter, files, unchanged)
    }
}

/// Whatever the files hold, no member of another agent is found among them.
pub proof fn no_other_agent_is_found(files: Seq<FoundFile>, unchanged: Seq<Seq<char>>)
    ensures
        forall|k: int|
            0 <= k < members_in(ClaudeAdapter, files, unchanged).len() ==> (#[trigger] members_in(
                ClaudeAdapter,
                files,
                unchanged,
            )[k]).agent == Agent::ClaudeCode,
{
    members_are_of_one_agent(ClaudeAdapter, files, unchanged, Agent::ClaudeCode);
}

/// A line of the user or the assistant on the main chain of a root, that the runtime did not put
/// out and whose prose is not blank, is a message with that prose: of the user, unless it opens
/// with a tag or a heading; of the assistant whatever it opens with, under the model it names.
/// Nothing else is a message. The calls of tools in a line are counted, a side chain is one side
/// activity, and a summary is one compaction.
pub proof fn what_a_line_says(v: Tree, is_root: bool)
    ensures
        ({
            let kind = v.field("type"@);
            let user = kind == Some(Tree::Text("user"@));
            let assistant = kind == Some(Tree::Text("assistant"@));
            let side = v.field("isSidechain"@) == Some(Tree::Bool(true));
            let meta = v.field("isMeta"@) == Some(Tree::Bool(true));
            let content = match v.inner("message"@, "content"@) {
                Some(c) => c,
                None => Tree::Null,
            };
            let text = prose(content, Blocks::Text);
            let calls = blocks_in(content, "tool_use"@);
            let l = line_of(v, is_root);
            &&& !user && !assistant && kind != Some(Tree::Text("summary"@)) ==> l is None
            &&& kind == Some(Tree::Text("summary"@)) ==> l is Some && l->0.message is None
                && l->0.observation.compactions == 1 && l->0.observation.tool_calls == 0
                && l->0.observation.tool_errors == 0 && l->0.observation.side_activity == 0
            &&& user || assistant ==> l is Some && l->0.observation.tool_errors == 0
                && l->0.observation.compactions == 0
            &&& (user || assistant) && side ==> l->0.message is None
                && l->0.observation.side_activity == 1 && l->0.observation.tool_calls == 0
            &&& (user || assistant) && !side ==> l->0.observation.side_activity == 0 && (calls
                <= u64::MAX ==> l->0.observation.tool_calls == calls)
            &&& assistant && !side ==> (l->0.message is Some <==> is_root && !meta && !blank(text))
            &&& user && !side ==> (l->0.message is Some <==> is_root && !meta && !blank(text)
                && !injected(text))
            &&& (user || assistant) && l->0.message is Some ==> {
                let m = l->0.message->0;
                &&& m.content == text
                &&& m.role == (if user {
                    SessionMessageRole::User
                } else {
                    SessionMessageRole::Assistant
                })
                &&& m.source_message_id == v.text_at("uuid"@)
                &&& m.provider is None
                &&& m.ts is None
                &&& m.source_position.len() == 0
                &&& user ==> m.model is None
                &&& assistant ==> m.model == (match v.field("message"@) {
                    Some(x) => x.text_at("model"@),
                    None => None,
                })
            }
        }),
{
    reveal_strlit("user");
    reveal_strlit("assistant");
    reveal_strlit("summary");
    assert("user"@.len() == 4 && "assistant"@.len() == 9 && "summary"@.len() == 7);
}

/// A reply of the assistant is told whatever character it opens with.
pub proof fn a_reply_is_told_whatever_it_opens_with(v: Tree, s: Seq<char>)
    requires
        v.field("type"@) == Some(Tree::Text("assistant"@)),
        v.field("isSidechain"@) != Some(Tree::Bool(true)),
        v.field("isMeta"@) != Some(Tree::Bool(true)),
        v.inner("message"@, "content"@) == Some(Tree::Text(s)),
        !blank(s),
    ensures
        line_of(v, true) matches Some(l) && (l.message matches Some(m) && m.content == s && m.role
            == SessionMessageRole::Assistant),
{
    reveal_strlit("user");
    reveal_strlit("assistant");
    assert("user"@.len() == 4 && "assistant"@.len() == 9);
    what_a_line_says(v, true);
}

/// A transcript keeps the first session id, directory and time that its documents name, the last
/// document's time, and the first words of the user and of the assistant on the main chain.
pub proof fn one_more_document(docs: Seq<(int, Tree)>, idx: int, v: Tree)
    ensures
        ({
            let before = TranscriptFacts::of(docs);
            let after = TranscriptFacts::of(docs.push((idx, v)));
            let content = match v.inner("message"@, "content"@) {
                Some(c) => c,
                None => Tree::Null,
            };
            let text = prose(content, Blocks::Text);
            let side = v.field("isSidechain"@) == Some(Tree::Bool(true));
            let meta = v.field("isMeta"@) == Some(Tree::Bool(true));
            &&& after.session_id == if before.session_id is Some {
                before.session_id
            } else {
                v.text_at("sessionId"@)
            }
            &&& after.cwd == if before.cwd is Some {
                before.cwd
            } else {
                solid_text_at(v, "cwd"@)
            }
            &&& after.started_at == if before.started_at is Some {
                before.started_at
            } else {
                v.text_at("timestamp"@)
            }
            &&& after.last_ts == v.text_at("timestamp"@)
            &&& after.first_user_text == if before.first_user_text is Some {
                before.first_user_text
            } else if v.field("type"@) == Some(Tree::Text("user"@)) && !side && !meta && text.len()
                > 0 && !injected(text) {
                Some(shortened(text, 400))
            } else {
                None
            }
            &&& after.first_agent_text == if before.first_agent_text is Some {
                before.first_agent_text
            } else if v.field("type"@) == Some(Tree::Text("assistant"@)) && !side && text.len()
                > 0 {
                Some(shortened(text, 400))
            } else {
                None
            }
        }),
        TranscriptFacts::of(Seq::empty()) == (TranscriptFacts {
            session_id: None,
            cwd: None,
            started_at: None,
            last_ts: None,
            first_user_text: None,
            first_agent_text: None,
        }),
{
    assert(docs.push((idx, v)).drop_last() =~= docs);
}

/// A transcript is the root of a session that goes by the id its documents name, else by its file
/// name, and is found with what its documents say of it.
pub proof fn a_transcript_is_a_root(file: FoundFile, docs: Seq<(int, Tree)>)
    ensures
        ({
            let m = member_with(file, docs);
            let facts = TranscriptFacts::of(docs);
            &&& m.agent == Agent::ClaudeCode
            &&& m.kind == DiscoveredMemberKind::Root
            &&& m.parent_source_member_id is None
            &&& m.root_hint is None
            &&& facts.session_id matches Some(id) ==> m.source_member_id == id
            &&& facts.session_id is None ==> m.source_member_id == stem_of(file.name@)
            &&& m.source_kind == "claude_code_transcript"@
            &&& m.source_path == file.path@
            &&& m.cwd == facts.cwd
            &&& m.started_at == facts.started_at
            &&& file.modified matches Some(t) ==> m.last_activity_at == Some(t@)
            &&& file.modified is None ==> m.last_activity_at == facts.last_ts
            &&& m.native_title is None
            &&& m.first_user_text == facts.first_user_text
            &&& m.first_agent_text == facts.first_agent_text
        }),
        member_of(file) == member_with(file, documents(file.data@)),
        discovered(file) is Some <==> extension_of(file.name@) == Some("jsonl"@) && format_of(
            texts(file.head@),
            MAX_PARSE_LINES as int,
        ) == Some(Agent::ClaudeCode),
        discovered(file) is Some ==> discovered(file) == Some(member_of(file)),
{
}

/// An override is handed on under its own flag, the model before the effort.
pub proof fn overrides_are_handed_on(opts: ExecOptions)
    ensures
        runtime(opts) == (match opts.model {
            Some(m) => seq!["--model"@, m@],
            None => Seq::empty(),
        }) + (match opts.effort {
            Some(e) => seq!["--effort"@, e@],
            None => Seq::empty(),
        }),
{
}

} // verus!
