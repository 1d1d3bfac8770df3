//! Pi: `agent/sessions/<encoded-cwd>/<ts>_<uuid>.jsonl`.
//!
//! One transcript, one root. Thinking, tool traffic and what the runtime injects are never
//! conversation; a compaction is counted.
use crate::adapters::content::{
    document_views, documents, empty_object, first_of, is_jsonl_file, jsonl_file, observed,
    one_compaction, prose, prose_of, read_documents, Blocks,
};
use crate::adapters::discovery::{
    find_members, members_are_of_one_agent, members_in, MemberFinder,
};
use crate::adapters::fingerprint::{detect_format, format_of, MAX_PARSE_LINES};
use crate::adapters::reader::{
    delta_of, read_jsonl_delta, LineFormat, MemberReadDelta, Provenance, ProvenanceState,
    SourceFile, StatsCapabilities,
};
use crate::adapters::{
    add_argument, add_flag, add_word, argument, counted, flag, injected, is_injected_preamble,
    message_of, parsed_message, shortened, spoken, truncate_text, AgentCommand, CommandLine,
    DiscoveredMember, DiscoveredMemberKind, ExecOptions, Line, Member, ParsedLine,
};
use crate::domain::{
    copy_text, Agent, AgentInstallation, Message, SessionMemberCursor, SessionMemberRelation,
    SessionMessageRole,
};
use crate::json::{Json, Tree};
use crate::paths::{file_stem, stem_of, FoundFile};
use crate::text::{after_last, blank, is_blank, tail_after, texts};
use vstd::prelude::*;

verus! {

/// The adapter for Pi.
pub struct PiAdapter;

// ---------------------------------------------------------------------------
// Facts of a transcript
// ---------------------------------------------------------------------------

/// What the documents of a transcript say about it.
pub struct Transcript {
    pub session_id: Option<String>,
    pub cwd: Option<String>,
    pub started_at: Option<String>,
    pub first_user_text: Option<String>,
    pub first_agent_text: Option<String>,
}

/// What the documents of a transcript say about it, as a mathematical value.
pub struct TranscriptFacts {
    pub session_id: Option<Seq<char>>,
    pub cwd: Option<Seq<char>>,
    pub started_at: Option<Seq<char>>,
    pub first_user_text: Option<Seq<char>>,
    pub first_agent_text: Option<Seq<char>>,
}

impl DeepView for Transcript {
    type V = TranscriptFacts;

    open spec fn deep_view(&self) -> TranscriptFacts {
        TranscriptFacts {
            session_id: self.session_id.deep_view(),
            cwd: self.cwd.deep_view(),
            started_at: self.started_at.deep_view(),
            first_user_text: self.first_user_text.deep_view(),
            first_agent_text: self.first_agent_text.deep_view(),
        }
    }
}

/// The prose of a line's message.
pub open spec fn said(v: Tree) -> Seq<char> {
    prose(v.field_or_null("message"@).field_or_null("content"@), Blocks::Text)
}

/// Who said a line's message.
pub open spec fn role_of(v: Tree) -> Option<Seq<char>> {
    v.field_or_null("message"@).text_at("role"@)
}

impl TranscriptFacts {
    /// Nothing known yet.
    pub open spec fn none() -> TranscriptFacts {
        TranscriptFacts {
            session_id: None,
            cwd: None,
            started_at: None,
            first_user_text: None,
            first_agent_text: None,
        }
    }

    /// The head of the transcript has said all that is looked for.
    pub open spec fn complete(self) -> bool {
        self.session_id is Some && self.first_user_text is Some
    }

    /// After one more document.
    pub open spec fn after(self, v: Tree) -> TranscriptFacts {
        let text = said(v);
        if self.complete() {
            self
        } else if v.text_at("type"@) == Some("session"@) {
            TranscriptFacts {
                session_id: v.text_at("id"@),
                cwd: v.text_at("cwd"@),
                started_at: v.text_at("timestamp"@),
                ..self
            }
        } else if v.text_at("type"@) == Some("message"@) {
            TranscriptFacts {
                first_user_text: first_of(
                    self.first_user_text,
                    if role_of(v) == Some("user"@) && text.len() > 0 && !injected(text) {
                        Some(shortened(text, 400))
                    } else {
                        None
                    },
                ),
                first_agent_text: first_of(
                    self.first_agent_text,
                    if role_of(v) == Some("assistant"@) && text.len() > 0 {
                        Some(shortened(text, 400))
                    } else {
                        None
                    },
                ),
                ..self
            }
        } else {
            self
        }
    }

    /// What a transcript's documents say together.
    pub open spec fn of(docs: Seq<(int, Tree)>) -> TranscriptFacts
        decreases docs.len(),
    {
        if docs.len() == 0 {
            TranscriptFacts::none()
        } else {
            TranscriptFacts::of(docs.drop_last()).after(docs.last().1)
        }
    }

    /// The identity of the session: what the header says, else what follows the last underscore
    /// of the file name. An empty one is none.
    pub open spec fn identity(self, name: Seq<char>) -> Option<Seq<char>> {
        let id = match self.session_id {
            Some(id) => id,
            None => after_last(stem_of(name), '_'),
        };
        if id.len() == 0 {
            None
        } else {
            Some(id)
        }
    }
}

impl Transcript {
    fn note(&mut self, v: &Json)
        ensures
            final(self).deep_view() == old(self).deep_view().after(v.tree()),
    {
        if self.session_id.is_some() && self.first_user_text.is_some() {
            return;
        }
        if v.text_is("type", "session") {
            self.session_id = v.string_at("id");
            self.cwd = v.string_at("cwd");
            self.started_at = v.string_at("timestamp");
        } else if v.text_is("type", "message") {
            let null = Json::Null;
            let message: &Json = match v.get("message") {
                Some(m) => m,
                None => &null,
            };
            let text = prose_of(message.get("content"), Blocks::Text);
            if self.first_user_text.is_none() && message.text_is("role", "user")
                && !text.as_str().is_empty() && !is_injected_preamble(text.as_str()) {
                self.first_user_text = Some(truncate_text(text.as_str(), 400));
            }
            if self.first_agent_text.is_none() && message.text_is("role", "assistant")
                && !text.as_str().is_empty() {
                self.first_agent_text = Some(truncate_text(text.as_str(), 400));
            }
        }
    }
}

// ---------------------------------------------------------------------------
// Discovery
// ---------------------------------------------------------------------------

/// The member that a transcript of these documents is; none where it has no identity.
pub open spec fn member_with(file: FoundFile, docs: Seq<(int, Tree)>) -> Option<Member> {
    let facts = TranscriptFacts::of(docs);
    match facts.identity(file.name@) {
        None => None,
        Some(id) => Some(
            Member {
                agent: Agent::Pi,
                source_member_id: id,
                kind: DiscoveredMemberKind::Root,
                parent_source_member_id: None,
                root_hint: None,
                source_kind: "pi_session_transcript"@,
                source_path: file.path@,
                cwd: facts.cwd,
                started_at: facts.started_at,
                last_activity_at: file.modified.deep_view(),
                native_title: None,
                first_user_text: facts.first_user_text,
                first_agent_text: facts.first_agent_text,
                metadata: Tree::Object(Seq::empty()),
            },
        ),
    }
}

/// The member that a transcript is.
pub open spec fn member_of(file: FoundFile) -> Option<Member> {
    member_with(file, documents(file.data@))
}

/// The member that discovery finds in a file: any `.jsonl` file whose content is Pi's.
pub open spec fn discovered(file: FoundFile) -> Option<Member> {
    if jsonl_file(file.name@) && format_of(texts(file.head@), MAX_PARSE_LINES as int) == Some(
        Agent::Pi,
    ) {
        member_of(file)
    } else {
        None
    }
}

impl PiAdapter {
    /// The member that a transcript is.
    pub fn parse_member(file: &FoundFile) -> (r: Option<DiscoveredMember>)
        ensures
            r.deep_view() == member_of(*file),
    {
        PiAdapter::member_from(file, &read_documents(file.data.as_slice()))
    }

    /// The member that a transcript of these documents is, each with the number of its line.
    pub fn member_from(file: &FoundFile, docs: &Vec<(usize, Json)>) -> (r: Option<
        DiscoveredMember,
    >)
        ensures
            r.deep_view() == member_with(*file, document_views(docs@)),
    {
        let ghost all = document_views(docs@);
        let mut facts = Transcript {
            session_id: None,
            cwd: None,
            started_at: None,
            first_user_text: None,
            first_agent_text: None,
        };
        let mut i: usize = 0;
        assert(all.take(0) =~= Seq::<(int, Tree)>::empty());
        while i < docs.len()
            invariant
                i <= docs@.len(),
                all == document_views(docs@),
                facts.deep_view() == TranscriptFacts::of(all.take(i as int)),
            decreases docs@.len() - i,
        {
            assert(all.take(i + 1).drop_last() =~= all.take(i as int));
            assert(all.take(i + 1).last().1 == docs@[i as int].1.tree());
            facts.note(&docs[i].1);
            i = i + 1;
        }
        assert(all.take(i as int) =~= all);
        let id: String = match facts.session_id {
            Some(id) => id,
            None => tail_after(file_stem(file.name.as_str()).as_str(), '_'),
        };
        if id.as_str().is_empty() {
            return None;
        }
        Some(
            DiscoveredMember {
                agent: Agent::Pi,
                source_member_id: id,
                kind: DiscoveredMemberKind::Root,
                parent_source_member_id: None,
                root_hint: None,
                source_kind: "pi_session_transcript".to_owned(),
                source_path: file.path.clone(),
                cwd: facts.cwd,
                started_at: facts.started_at,
                last_activity_at: copy_text(&file.modified),
                native_title: None,
                first_user_text: facts.first_user_text,
                first_agent_text: facts.first_agent_text,
                metadata: empty_object(),
            },
        )
    }

    /// The member that discovery finds in a file.
    pub fn discover_member(file: &FoundFile) -> (r: Option<DiscoveredMember>)
        ensures
            r.deep_view() == discovered(*file),
    {
        if !is_jsonl_file(file.name.as_str()) {
            return None;
        }
        match detect_format(&file.head) {
            Some(Agent::Pi) => PiAdapter::parse_member(file),
            _ => None,
        }
    }
}

// ---------------------------------------------------------------------------
// Lines
// ---------------------------------------------------------------------------

/// The lines of a transcript; those of a root speak, those of any other member only count.
pub struct PiLines {
    pub is_root: bool,
}

/// What a line of a transcript contributes. An assistant's message names its provider and its
/// model itself.
pub open spec fn line_of(v: Tree, is_root: bool) -> Option<Line> {
    let message = v.field_or_null("message"@);
    let text = said(v);
    if v.text_at("type"@) == Some("message"@) {
        if blank(text) || !is_root {
            None
        } else if role_of(v) == Some("user"@) && !injected(text) {
            Some(spoken(message_of(v.text_at("id"@), SessionMessageRole::User, text)))
        } else if role_of(v) == Some("assistant"@) {
            Some(
                spoken(
                    Message {
                        provider: message.text_at("provider"@),
                        model: message.text_at("model"@),
                        ..message_of(v.text_at("id"@), SessionMessageRole::Assistant, text)
                    },
                ),
            )
        } else {
            None
        }
    } else if v.text_at("type"@) == Some("compaction"@) || v.text_at("type"@) == Some("compact"@) {
        Some(counted(one_compaction()))
    } else {
        None
    }
}

/// What a line of a transcript contributes.
pub fn parse_line(v: &Json, is_root: bool) -> (r: Option<ParsedLine>)
    ensures
        r.deep_view() == line_of(v.tree(), is_root),
{
    if v.text_is("type", "message") {
        let null = Json::Null;
        let message: &Json = match v.get("message") {
            Some(m) => m,
            None => &null,
        };
        let text = prose_of(message.get("content"), Blocks::Text);
        if is_blank(text.as_str()) || !is_root {
            return None;
        }
        let id = v.string_at("id");
        if message.text_is("role", "user") && !is_injected_preamble(text.as_str()) {
            Some(ParsedLine::message_only(parsed_message(id, SessionMessageRole::User, text)))
        } else if message.text_is("role", "assistant") {
            Some(
                ParsedLine::message_only(
                    parsed_message(id, SessionMessageRole::Assistant, text).with_provenance(
                        message.string_at("provider"),
                        message.string_at("model"),
                    ),
                ),
            )
        } else {
            None
        }
    } else if v.text_is("type", "compaction") || v.text_is("type", "compact") {
        Some(ParsedLine::observation_only(observed(0, 1, 0)))
    } else {
        None
    }
}

impl LineFormat for PiLines {
    open spec fn reading(&self, idx: int, v: Tree, state: Provenance) -> (
        Option<Line>,
        Provenance,
    ) {
        (line_of(v, self.is_root), state)
    }

    fn read_line(&self, idx: usize, v: &Json, state: &mut ProvenanceState) -> (r: Option<
        ParsedLine,
    >) {
        parse_line(v, self.is_root)
    }
}

impl PiAdapter {
    /// Reads what a transcript holds beyond its cursor.
    pub fn read_member_delta(
        relation: SessionMemberRelation,
        file: &SourceFile,
        cursor: &SessionMemberCursor,
    ) -> (r: MemberReadDelta)
        requires
            cursor.generation < i64::MAX,
        ensures
            r.deep_view() == delta_of(
                PiLines { is_root: relation is Root },
                *file,
                *cursor,
                StatsCapabilities {
                    tool_calls: false,
                    tool_errors: false,
                    compactions: true,
                    side_activity: false,
                },
                Provenance::unknown(),
            ),
    {
        let lines = PiLines { is_root: matches!(relation, SessionMemberRelation::Root) };
        read_jsonl_delta(file, cursor, StatsCapabilities::compaction(), &lines)
    }
}

// ---------------------------------------------------------------------------
// Commands
// ---------------------------------------------------------------------------

/// The overrides in Pi's spelling.
pub open spec fn runtime(opts: ExecOptions) -> Seq<Seq<char>> {
    flag("--provider"@, opts.provider.deep_view()) + flag("--model"@, opts.model.deep_view())
        + flag("--thinking"@, opts.effort.deep_view())
}

fn add_runtime(args: &mut Vec<String>, opts: &ExecOptions)
    ensures
        texts(final(args)@) == texts(old(args)@) + runtime(*opts),
{
    let ghost before = texts(args@);
    add_flag(args, "--provider", &opts.provider);
    add_flag(args, "--model", &opts.model);
    add_flag(args, "--thinking", &opts.effort);
    assert(texts(args@) =~= before + runtime(*opts));
}

impl PiAdapter {
    /// The command line of a new session. `context` is the context to start with, literally.
    pub fn build_new_command(
        install: &AgentInstallation,
        opts: &ExecOptions,
        context: &Option<String>,
        cwd: &Option<String>,
    ) -> (r: AgentCommand)
        ensures
            r.deep_view() == (CommandLine {
                program: install.executable_path@,
                args: runtime(*opts) + argument(context.deep_view()),
                cwd: cwd.deep_view(),
            }),
    {
        let mut args: Vec<String> = Vec::new();
        add_runtime(&mut args, opts);
        add_argument(&mut args, context);
        assert(texts(args@) =~= runtime(*opts) + argument(context.deep_view()));
        AgentCommand { program: install.executable_path.clone(), args, cwd: copy_text(cwd) }
    }

    /// The command line that continues a session.
    pub fn build_resume_command(
        install: &AgentInstallation,
        opts: &ExecOptions,
        agent_session_id: &str,
        context: &Option<String>,
        cwd: &Option<String>,
    ) -> (r: AgentCommand)
        ensures
            r.deep_view() == (CommandLine {
                program: install.executable_path@,
                args: runtime(*opts) + seq!["--session"@, agent_session_id@] + argument(
                    context.deep_view(),
                ),
                cwd: cwd.deep_view(),
            }),
    {
        let mut args: Vec<String> = Vec::new();
        add_runtime(&mut args, opts);
        add_word(&mut args, "--session");
        add_word(&mut args, agent_session_id);
        add_argument(&mut args, context);
        assert(texts(args@) =~= runtime(*opts) + seq!["--session"@, agent_session_id@] + argument(
            context.deep_view(),
        ));
        AgentCommand { program: install.executable_path.clone(), args, cwd: copy_text(cwd) }
    }

    /// The command line of one answer: no session is kept and no tool is offered.
    pub fn build_exec_command(install: &AgentInstallation, opts: &ExecOptions, prompt: &str) -> (r:
        AgentCommand)
        ensures
            r.deep_view() == (CommandLine {
                program: install.executable_path@,
                args: seq!["-p"@, "--no-session"@, "--no-tools"@] + runtime(*opts) + seq![prompt@],
                cwd: None,
            }),
    {
        let mut args: Vec<String> = Vec::new();
        add_word(&mut args, "-p");
        add_word(&mut args, "--no-session");
        add_word(&mut args, "--no-tools");
        assert(texts(args@) =~= seq!["-p"@, "--no-session"@, "--no-tools"@]);
        add_runtime(&mut args, opts);
        add_word(&mut args, prompt);
        assert(texts(args@) =~= seq!["-p"@, "--no-session"@, "--no-tools"@] + runtime(*opts)
            + seq![prompt@]);
        AgentCommand { program: install.executable_path.clone(), args, cwd: None }
    }
}

// ---------------------------------------------------------------------------
// Laws
// ---------------------------------------------------------------------------

/// Overrides that are left to the agent add nothing to its command line.
pub proof fn defaults_add_no_argument(opts: ExecOptions)
    requires
        opts.plain(),
    ensures
        runtime(opts).len() == 0,
{
}

/// A member that is not a root never speaks.
pub proof fn only_a_root_speaks(v: Tree)
    ensures
        line_of(v, false) matches Some(l) ==> l.message is None,
{
}

// ---------------------------------------------------------------------------
// Discovery among files
// ---------------------------------------------------------------------------

impl MemberFinder for PiAdapter {
    open spec fn member(&self, file: FoundFile) -> Option<Member> {
        discovered(file)
    }

    fn find(&self, file: &FoundFile) -> Option<DiscoveredMember> {
        PiAdapter::discover_member(file)
    }
}

impl PiAdapter {
    /// The members among files, but for the files at the paths that did not change.
    pub fn discover_members_in(files: &Vec<FoundFile>, unchanged: &Vec<String>) -> (r: Vec<
        DiscoveredMember,
    >)
        ensures
            r.deep_view() == members_in(PiAdapter, files@, texts(unchanged@)),
    {
        find_members(&PiAdapter, files, unchanged)
    }
}

/// Whatever the files hold, no member of another agent is found among them.
pub proof fn no_other_agent_is_found(files: Seq<FoundFile>, unchanged: Seq<Seq<char>>)
    ensures
        forall|k: int|
            0 <= k < members_in(PiAdapter, files, unchanged).len() ==> (#[trigger] members_in(
                PiAdapter,
                files,
                unchanged,
            )[k]).agent == Agent::Pi,
{
    members_are_of_one_agent(PiAdapter, files, unchanged, Agent::Pi);
}

} // verus!
