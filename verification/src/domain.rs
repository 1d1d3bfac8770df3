//! The things the workspace is made of: agents, members, messages, cursors.
use crate::text::{same, texts, title_case, titled};
use vstd::prelude::*;

verus! {

/// The coding agents whose sessions the workspace reads.
#[derive(Clone, Copy, Debug, PartialEq, Eq, Structural)]
pub enum Agent {
    Codex,
    ClaudeCode,
    Pi,
    Qoder,
    AutoClaw,
    WorkBuddy,
    Dsh,
    Gemini,
    ZCode,
    Antigravity,
}

impl DeepView for Agent {
    type V = Agent;

    open spec fn deep_view(&self) -> Agent {
        *self
    }
}

impl Agent {
    /// The name an agent is stored under.
    pub open spec fn name(self) -> Seq<char> {
        match self {
            Agent::Codex => "codex"@,
            Agent::ClaudeCode => "claude_code"@,
            Agent::Pi => "pi"@,
            Agent::Qoder => "qoder"@,
            Agent::AutoClaw => "autoclaw"@,
            Agent::WorkBuddy => "workbuddy"@,
            Agent::Dsh => "dsh"@,
            Agent::Gemini => "gemini"@,
            Agent::ZCode => "zcode"@,
            Agent::Antigravity => "antigravity"@,
        }
    }

    /// The name an agent is shown under: its own spelling where it has one, else the words of the
    /// name that it is stored under.
    pub open spec fn shown(self) -> Seq<char> {
        match self {
            Agent::AutoClaw => "AutoClaw"@,
            Agent::WorkBuddy => "WorkBuddy"@,
            Agent::Dsh => "DeepSeek Harness"@,
            Agent::ZCode => "ZCode"@,
            _ => titled(self.name()),
        }
    }

    /// Every agent, in the order in which a default is looked for.
    pub open spec fn every() -> Seq<Agent> {
        seq![
            Agent::Codex,
            Agent::ClaudeCode,
            Agent::Pi,
            Agent::Qoder,
            Agent::AutoClaw,
            Agent::WorkBuddy,
            Agent::Dsh,
            Agent::Gemini,
            Agent::ZCode,
            Agent::Antigravity,
        ]
    }

    /// The name the agent is stored under.
    pub fn as_str(self) -> (r: &'static str)
        ensures
            r@ == self.name(),
    {
        match self {
            Agent::Codex => "codex",
            Agent::ClaudeCode => "claude_code",
            Agent::Pi => "pi",
            Agent::Qoder => "qoder",
            Agent::AutoClaw => "autoclaw",
            Agent::WorkBuddy => "workbuddy",
            Agent::Dsh => "dsh",
            Agent::Gemini => "gemini",
            Agent::ZCode => "zcode",
            Agent::Antigravity => "antigravity",
        }
    }

    /// The name the agent is shown under.
    pub fn display_name(self) -> (r: String)
        ensures
            r@ == self.shown(),
    {
        match self {
            Agent::AutoClaw => "AutoClaw".to_owned(),
            Agent::WorkBuddy => "WorkBuddy".to_owned(),
            Agent::Dsh => "DeepSeek Harness".to_owned(),
            Agent::ZCode => "ZCode".to_owned(),
            _ => title_case(self.as_str()),
        }
    }

    /// Every agent.
    pub fn all() -> (r: Vec<Agent>)
        ensures
            r@ == Agent::every(),
    {
        vec![
            Agent::Codex,
            Agent::ClaudeCode,
            Agent::Pi,
            Agent::Qoder,
            Agent::AutoClaw,
            Agent::WorkBuddy,
            Agent::Dsh,
            Agent::Gemini,
            Agent::ZCode,
            Agent::Antigravity,
        ]
    }

    /// The agent stored under a name.
    pub fn parse(s: &str) -> (r: Option<Agent>)
        ensures
            match r {
                Some(a) => a.name() == s@,
                None => forall|a: Agent| #[trigger] a.name() != s@,
            },
    {
        let all = Agent::all();
        let mut i: usize = 0;
        while i < all.len()
            invariant
                i <= all@.len(),
                all@ == Agent::every(),
                forall|k: int| 0 <= k < i ==> (#[trigger] all@[k]).name() != s@,
            decreases all@.len() - i,
        {
            if same(all[i].as_str(), s) {
                return Some(all[i]);
            }
            i = i + 1;
        }
        assert forall|a: Agent| #[trigger] a.name() != s@ by {
            every_agent(a);
            let k = choose|k: int| 0 <= k < Agent::every().len() && Agent::every()[k] == a;
            assert(all@[k].name() != s@);
        }
        None
    }
}

/// No agent is left out of the list of all agents.
pub proof fn every_agent(a: Agent)
    ensures
        Agent::every().contains(a),
{
    let all = Agent::every();
    assert(all[0] == Agent::Codex && all[1] == Agent::ClaudeCode && all[2] == Agent::Pi && all[3]
        == Agent::Qoder && all[4] == Agent::AutoClaw && all[5] == Agent::WorkBuddy && all[6]
        == Agent::Dsh && all[7] == Agent::Gemini && all[8] == Agent::ZCode && all[9]
        == Agent::Antigravity);
}

/// Two agents are never stored under the same name.
pub proof fn agent_names_are_distinct(a: Agent, b: Agent)
    requires
        a.name() == b.name(),
    ensures
        a == b,
{
    reveal_strlit("codex");
    reveal_strlit("claude_code");
    reveal_strlit("pi");
    reveal_strlit("qoder");
    reveal_strlit("autoclaw");
    reveal_strlit("workbuddy");
    reveal_strlit("dsh");
    reveal_strlit("gemini");
    reveal_strlit("zcode");
    reveal_strlit("antigravity");
    assert("codex"@.len() == 5 && "claude_code"@.len() == 11 && "pi"@.len() == 2 && "qoder"@.len()
        == 5 && "autoclaw"@.len() == 8 && "workbuddy"@.len() == 9 && "dsh"@.len() == 3
        && "gemini"@.len() == 6 && "zcode"@.len() == 5 && "antigravity"@.len() == 11);
    assert("codex"@[0] == 'c' && "qoder"@[0] == 'q' && "zcode"@[0] == 'z');
    assert("claude_code"@[0] == 'c' && "antigravity"@[0] == 'a');
}

/// Where a member stands in the execution graph of its session.
#[derive(Clone, Copy, Debug, PartialEq, Eq, Structural)]
pub enum SessionMemberRelation {
    Root,
    Child,
    Side,
}

/// Who said a message.
#[derive(Clone, Copy, Debug, PartialEq, Eq, Structural)]
pub enum SessionMessageRole {
    User,
    Assistant,
}

impl SessionMessageRole {
    /// The name a role is stored under.
    pub open spec fn name(self) -> Seq<char> {
        match self {
            SessionMessageRole::User => "user"@,
            SessionMessageRole::Assistant => "assistant"@,
        }
    }

    /// The name the role is stored under.
    pub fn as_str(self) -> (r: &'static str)
        ensures
            r@ == self.name(),
    {
        match self {
            SessionMessageRole::User => "user",
            SessionMessageRole::Assistant => "assistant",
        }
    }
}

/// Whether the source of a member can be found.
#[derive(Clone, Copy, Debug, PartialEq, Eq, Structural)]
pub enum SourceAvailability {
    Present,
    Missing,
    Unavailable,
}

/// A message read from a source, before it is stored.
pub struct ParsedSessionMessage {
    pub source_message_id: Option<String>,
    pub source_position: String,
    pub ts: Option<String>,
    pub role: SessionMessageRole,
    pub content: String,
    pub provider: Option<String>,
    pub model: Option<String>,
}

/// A message read from a source, as a mathematical value.
pub struct Message {
    pub source_message_id: Option<Seq<char>>,
    pub source_position: Seq<char>,
    pub ts: Option<Seq<char>>,
    pub role: SessionMessageRole,
    pub content: Seq<char>,
    pub provider: Option<Seq<char>>,
    pub model: Option<Seq<char>>,
}

impl DeepView for ParsedSessionMessage {
    type V = Message;

    open spec fn deep_view(&self) -> Message {
        Message {
            source_message_id: self.source_message_id.deep_view(),
            source_position: self.source_position@,
            ts: self.ts.deep_view(),
            role: self.role,
            content: self.content@,
            provider: self.provider.deep_view(),
            model: self.model.deep_view(),
        }
    }
}

impl ParsedSessionMessage {
    /// The message with the provider and the model that made it.
    pub fn with_provenance(self, provider: Option<String>, model: Option<String>) -> (r: Self)
        ensures
            r.deep_view() == (Message {
                provider: provider.deep_view(),
                model: model.deep_view(),
                ..self.deep_view()
            }),
    {
        ParsedSessionMessage { provider, model, ..self }
    }

    /// The message with the place where it stands in its source.
    pub fn with_position(self, source_position: String) -> (r: Self)
        ensures
            r.deep_view() == (Message { source_position: source_position@, ..self.deep_view() }),
    {
        ParsedSessionMessage { source_position, ..self }
    }

    /// The message with the time at which it was said.
    pub fn with_ts(self, ts: Option<String>) -> (r: Self)
        ensures
            r.deep_view() == (Message { ts: ts.deep_view(), ..self.deep_view() }),
    {
        ParsedSessionMessage { ts, ..self }
    }
}

/// What a source line says about the execution rather than the conversation.
#[derive(Clone, Copy, Debug, PartialEq, Eq, Structural)]
pub struct MemberObservation {
    pub tool_calls: u64,
    pub tool_errors: u64,
    pub compactions: u64,
    pub side_activity: u64,
}

impl DeepView for MemberObservation {
    type V = MemberObservation;

    open spec fn deep_view(&self) -> MemberObservation {
        *self
    }
}

/// Adds one count to another; a count that no longer fits stays at the largest.
pub open spec fn count_sum(a: u64, b: u64) -> u64 {
    if a + b > u64::MAX {
        u64::MAX
    } else {
        (a + b) as u64
    }
}

impl MemberObservation {
    /// Nothing observed.
    pub open spec fn nothing() -> MemberObservation {
        MemberObservation { tool_calls: 0, tool_errors: 0, compactions: 0, side_activity: 0 }
    }

    /// Two observations together.
    pub open spec fn plus(self, o: MemberObservation) -> MemberObservation {
        MemberObservation {
            tool_calls: count_sum(self.tool_calls, o.tool_calls),
            tool_errors: count_sum(self.tool_errors, o.tool_errors),
            compactions: count_sum(self.compactions, o.compactions),
            side_activity: count_sum(self.side_activity, o.side_activity),
        }
    }

    /// Adds what another line observed.
    pub fn add(&mut self, o: &MemberObservation)
        ensures
            *final(self) == old(self).plus(*o),
    {
        self.tool_calls = self.tool_calls.saturating_add(o.tool_calls);
        self.tool_errors = self.tool_errors.saturating_add(o.tool_errors);
        self.compactions = self.compactions.saturating_add(o.compactions);
        self.side_activity = self.side_activity.saturating_add(o.side_activity);
    }
}

impl Default for MemberObservation {
    fn default() -> (r: Self)
        ensures
            r == MemberObservation::nothing(),
    {
        MemberObservation { tool_calls: 0, tool_errors: 0, compactions: 0, side_activity: 0 }
    }
}

/// How far a member's source has been consumed. The modification time is in nanoseconds.
pub struct SessionMemberCursor {
    pub source_file_identity: String,
    pub generation: i64,
    pub byte_offset: u64,
    pub last_seen_size: u64,
    pub mtime: Option<i64>,
    pub prefix_hash: String,
    pub active_provider: Option<String>,
    pub active_model: Option<String>,
}

impl SessionMemberCursor {
    /// No source has been read yet.
    pub open spec fn fresh(self) -> bool {
        self.source_file_identity@.len() == 0 && self.last_seen_size == 0
    }

    /// The cursor of a member whose source was never read.
    pub fn start() -> (r: SessionMemberCursor)
        ensures
            r.fresh(),
            r.generation == 0,
            r.byte_offset == 0,
            r.mtime is None,
            r.prefix_hash@.len() == 0,
            r.active_provider is None,
            r.active_model is None,
    {
        SessionMemberCursor {
            source_file_identity: String::new(),
            generation: 0,
            byte_offset: 0,
            last_seen_size: 0,
            mtime: None,
            prefix_hash: String::new(),
            active_provider: None,
            active_model: None,
        }
    }
}

/// The state of a source after a read.
pub struct SourceCursorUpdate {
    pub file_identity: String,
    pub generation: i64,
    pub byte_offset: u64,
    pub last_seen_size: u64,
    pub mtime: Option<i64>,
    pub start_byte_offset: u64,
    pub prefix_hash: String,
}

/// The state of a source after a read, as a mathematical value.
pub struct SourceState {
    pub file_identity: Seq<char>,
    pub generation: int,
    pub byte_offset: int,
    pub last_seen_size: int,
    pub mtime: Option<i64>,
    pub start_byte_offset: int,
    pub prefix_hash: Seq<char>,
}

impl DeepView for SourceCursorUpdate {
    type V = SourceState;

    open spec fn deep_view(&self) -> SourceState {
        SourceState {
            file_identity: self.file_identity@,
            generation: self.generation as int,
            byte_offset: self.byte_offset as int,
            last_seen_size: self.last_seen_size as int,
            mtime: self.mtime,
            start_byte_offset: self.start_byte_offset as int,
            prefix_hash: self.prefix_hash@,
        }
    }
}

/// Counters that a full scan found. `None`: the source format does not show them.
#[derive(Clone, Copy, Debug, PartialEq, Eq, Structural)]
pub struct SessionMemberStatsSnapshot {
    pub tool_call_count: Option<i64>,
    pub tool_error_count: Option<i64>,
    pub compaction_count: Option<i64>,
    pub side_activity_count: Option<i64>,
}

/// Counters that a read adds to the stored ones.
#[derive(Clone, Copy, Debug, PartialEq, Eq, Structural)]
pub struct MemberStatsDelta {
    pub tool_call_count: Option<i64>,
    pub tool_error_count: Option<i64>,
    pub compaction_count: Option<i64>,
    pub side_activity_count: Option<i64>,
}

/// How a read changes the counters of a member.
#[derive(Clone, Copy, Debug, PartialEq, Eq, Structural)]
pub enum StatsUpdate {
    Snapshot(SessionMemberStatsSnapshot),
    Delta(MemberStatsDelta),
}

impl DeepView for StatsUpdate {
    type V = StatsUpdate;

    open spec fn deep_view(&self) -> StatsUpdate {
        *self
    }
}

/// Where the command line program of an agent was found.
pub struct AgentInstallation {
    pub agent: Agent,
    pub executable_path: String,
    pub version: Option<String>,
}

/// A copy of an optional string.
pub fn copy_text(s: &Option<String>) -> (r: Option<String>)
    ensures
        r == *s,
{
    match s {
        Some(t) => Some(t.clone()),
        None => None,
    }
}

/// A copy of a list of strings.
pub fn copy_texts(v: &Vec<String>) -> (r: Vec<String>)
    ensures
        texts(r@) == texts(v@),
        r@ == v@,
{
    let mut out: Vec<String> = Vec::new();
    let mut i: usize = 0;
    while i < v.len()
        invariant
            i <= v@.len(),
            out@ == v@.take(i as int),
        decreases v@.len() - i,
    {
        out.push(v[i].clone());
        i = i + 1;
        assert(v@.take(i as int) =~= v@.take(i - 1).push(v@[i - 1]));
    }
    assert(v@.take(i as int) =~= v@);
    out
}

// ---------------------------------------------------------------------------
// Laws
// ---------------------------------------------------------------------------

/// Every agent is stored and shown under its own name, and the agents come in this order.
pub proof fn agents_go_by_their_names()
    ensures
        Agent::Codex.name() == "codex"@,
        Agent::ClaudeCode.name() == "claude_code"@,
        Agent::Pi.name() == "pi"@,
        Agent::Qoder.name() == "qoder"@,
        Agent::AutoClaw.name() == "autoclaw"@,
        Agent::WorkBuddy.name() == "workbuddy"@,
        Agent::Dsh.name() == "dsh"@,
        Agent::Gemini.name() == "gemini"@,
        Agent::ZCode.name() == "zcode"@,
        Agent::Antigravity.name() == "antigravity"@,
        Agent::AutoClaw.shown() == "AutoClaw"@,
        Agent::WorkBuddy.shown() == "WorkBuddy"@,
        Agent::Dsh.shown() == "DeepSeek Harness"@,
        Agent::ZCode.shown() == "ZCode"@,
        forall|a: Agent|
            a != Agent::AutoClaw && a != Agent::WorkBuddy && a != Agent::Dsh && a != Agent::ZCode
                ==> #[trigger] a.shown() == titled(a.name()),
        Agent::every().len() == 10,
        Agent::every()[0] == Agent::Codex,
        Agent::every()[1] == Agent::ClaudeCode,
        Agent::every()[2] == Agent::Pi,
        SessionMessageRole::User.name() == "user"@,
        SessionMessageRole::Assistant.name() == "assistant"@,
{
}

/// A source was never read where its file is not known and nothing of it was seen.
pub proof fn when_a_source_is_fresh(c: SessionMemberCursor)
    ensures
        c.fresh() <==> c.source_file_identity@.len() == 0 && c.last_seen_size == 0,
{
}

} // verus!
