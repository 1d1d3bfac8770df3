//! The agents' own formats: what a member is, what a line says, what a read brings.
//!
//! The unit is the member: one root plus every child and side execution that belongs to it.
//! A root contributes conversation, the visible prose of the user and the assistant. What a
//! line says about the execution (tool calls, compactions, side activity) is only counted,
//! and a child or a side never contributes conversation at all.
use crate::domain::{
    Agent, MemberObservation, Message, ParsedSessionMessage, SessionMemberRelation,
    SessionMessageRole, SourceAvailability,
};
use crate::json::{Json, Tree};
use crate::text::{
    blank, chars_of, contains_char, debug_form, debug_text, decimal, decimal_of, join, joined,
    lines, lines_of, skip_white, string_of, texts, trim, trim_start, trimmed, white,
};
use vstd::prelude::*;

pub mod antigravity;
pub mod autoclaw;
pub mod claude;
pub mod codex;
pub mod content;
pub mod discovery;
pub mod dsh;
pub mod events;
pub mod fingerprint;
pub mod gemini;
pub mod laws;
pub mod pi;
pub mod promises;
pub mod qoder;
pub mod registry;
pub mod sources;
pub mod reader;
pub mod workbuddy;
pub mod zcode;

pub use crate::adapters::fingerprint::{detect_format, fingerprint_line};
pub use crate::time::ms_epoch_to_rfc3339;

verus! {

// ---------------------------------------------------------------------------
// Commands
// ---------------------------------------------------------------------------

/// A command line an adapter asks for. Arguments are literal strings, never shell fragments.
pub struct AgentCommand {
    pub program: String,
    pub args: Vec<String>,
    pub cwd: Option<String>,
}

/// An argument as it is shown: quoted where it holds a space, a line break or a quote.
pub open spec fn shown_argument(a: Seq<char>) -> Seq<char> {
    if a.contains(' ') || a.contains('\n') || a.contains('"') {
        debug_form(a)
    } else {
        a
    }
}

impl AgentCommand {
    /// The command line as it is shown.
    pub open spec fn shown(self) -> Seq<char> {
        joined(
            seq![self.program@] + texts(self.args@).map_values(|a: Seq<char>| shown_argument(a)),
            " "@,
        )
    }

    /// The command line for people to read.
    pub fn display(&self) -> (r: String)
        ensures
            r@ == self.shown(),
    {
        let mut parts: Vec<String> = Vec::new();
        parts.push(self.program.clone());
        let mut i: usize = 0;
        let ghost shown = texts(self.args@).map_values(|a: Seq<char>| shown_argument(a));
        assert(texts(parts@) =~= seq![self.program@] + shown.take(0));
        while i < self.args.len()
            invariant
                i <= self.args@.len(),
                shown == texts(self.args@).map_values(|a: Seq<char>| shown_argument(a)),
                texts(parts@) == seq![self.program@] + shown.take(i as int),
            decreases self.args@.len() - i,
        {
            let a: &str = self.args[i].as_str();
            let shown_arg: String = if contains_char(a, ' ') || contains_char(a, '\n')
                || contains_char(a, '"') {
                debug_text(a)
            } else {
                a.to_owned()
            };
            let ghost before = texts(parts@);
            parts.push(shown_arg);
            i = i + 1;
            assert(texts(parts@) =~= before.push(shown_arg@));
            assert(shown.take(i as int) =~= shown.take(i - 1).push(shown[i - 1]));
            assert(texts(parts@) =~= seq![self.program@] + shown.take(i as int));
        }
        assert(shown.take(i as int) =~= shown);
        join(&parts, " ")
    }
}

// ---------------------------------------------------------------------------
// Members
// ---------------------------------------------------------------------------

/// What a discovered member is in the execution graph.
#[derive(Clone, Copy, Debug, PartialEq, Eq, Structural)]
pub enum DiscoveredMemberKind {
    /// The conversation of its logical session.
    Root,
    /// Internal execution; never conversation.
    Child,
    /// Execution beside the conversation; never conversation.
    Side,
    /// A logical session of its own that another one was the start of.
    ForkRoot,
}

impl DiscoveredMemberKind {
    /// A root of a logical session.
    pub open spec fn rooted(self) -> bool {
        self is Root || self is ForkRoot
    }

    /// The relation a member of this kind is stored with. A fork is the root of its own session.
    pub fn relation(self) -> (r: SessionMemberRelation)
        ensures
            r == (match self {
                DiscoveredMemberKind::Root => SessionMemberRelation::Root,
                DiscoveredMemberKind::ForkRoot => SessionMemberRelation::Root,
                DiscoveredMemberKind::Child => SessionMemberRelation::Child,
                DiscoveredMemberKind::Side => SessionMemberRelation::Side,
            }),
            r is Root <==> self.rooted(),
    {
        match self {
            DiscoveredMemberKind::Root => SessionMemberRelation::Root,
            DiscoveredMemberKind::ForkRoot => SessionMemberRelation::Root,
            DiscoveredMemberKind::Child => SessionMemberRelation::Child,
            DiscoveredMemberKind::Side => SessionMemberRelation::Side,
        }
    }

    /// Whether the member is the root of a logical session.
    pub fn is_logical_root(self) -> (r: bool)
        ensures
            r == self.rooted(),
    {
        matches!(self, DiscoveredMemberKind::Root | DiscoveredMemberKind::ForkRoot)
    }
}

/// An execution member as discovery found it.
pub struct DiscoveredMember {
    pub agent: Agent,
    pub source_member_id: String,
    pub kind: DiscoveredMemberKind,
    pub parent_source_member_id: Option<String>,
    pub root_hint: Option<String>,
    pub source_kind: String,
    pub source_path: String,
    pub cwd: Option<String>,
    pub started_at: Option<String>,
    pub last_activity_at: Option<String>,
    pub native_title: Option<String>,
    pub first_user_text: Option<String>,
    pub first_agent_text: Option<String>,
    pub metadata: Json,
}

/// An execution member, as a mathematical value.
pub struct Member {
    pub agent: Agent,
    pub source_member_id: Seq<char>,
    pub kind: DiscoveredMemberKind,
    pub parent_source_member_id: Option<Seq<char>>,
    pub root_hint: Option<Seq<char>>,
    pub source_kind: Seq<char>,
    pub source_path: Seq<char>,
    pub cwd: Option<Seq<char>>,
    pub started_at: Option<Seq<char>>,
    pub last_activity_at: Option<Seq<char>>,
    pub native_title: Option<Seq<char>>,
    pub first_user_text: Option<Seq<char>>,
    pub first_agent_text: Option<Seq<char>>,
    pub metadata: Tree,
}

impl DeepView for DiscoveredMember {
    type V = Member;

    open spec fn deep_view(&self) -> Member {
        Member {
            agent: self.agent,
            source_member_id: self.source_member_id@,
            kind: self.kind,
            parent_source_member_id: self.parent_source_member_id.deep_view(),
            root_hint: self.root_hint.deep_view(),
            source_kind: self.source_kind@,
            source_path: self.source_path@,
            cwd: self.cwd.deep_view(),
            started_at: self.started_at.deep_view(),
            last_activity_at: self.last_activity_at.deep_view(),
            native_title: self.native_title.deep_view(),
            first_user_text: self.first_user_text.deep_view(),
            first_agent_text: self.first_agent_text.deep_view(),
            metadata: self.metadata.tree(),
        }
    }
}

impl DiscoveredMember {
    /// The identity of the logical session that the member is the root of.
    pub fn root_agent_session_id(&self) -> (r: &str)
        requires
            self.kind.rooted(),
        ensures
            r@ == self.source_member_id@,
    {
        self.source_member_id.as_str()
    }
}

// ---------------------------------------------------------------------------
// Sources
// ---------------------------------------------------------------------------

/// What was found where a source should be.
#[derive(Clone, Copy, Debug, PartialEq, Eq, Structural)]
pub enum FileProbe {
    File,
    /// Something is there, and it is no file.
    NotAFile,
    /// Nothing is there.
    NotFound,
    /// It could not be looked at.
    Failed,
}

/// Whether a source is there. Only what is known to be absent is missing: a place that cannot be
/// looked at is not.
pub fn inspect_file_source(probe: FileProbe) -> (r: SourceAvailability)
    ensures
        r == (match probe {
            FileProbe::File => SourceAvailability::Present,
            FileProbe::NotFound => SourceAvailability::Missing,
            _ => SourceAvailability::Unavailable,
        }),
{
    match probe {
        FileProbe::File => SourceAvailability::Present,
        FileProbe::NotFound => SourceAvailability::Missing,
        FileProbe::NotAFile => SourceAvailability::Unavailable,
        FileProbe::Failed => SourceAvailability::Unavailable,
    }
}

/// The identity of a file: its device and its number there, whatever it holds.
pub fn file_identity(device: u64, inode: u64) -> (r: String)
    ensures
        r@ == "unix:dev:"@ + decimal(device as nat) + ":ino:"@ + decimal(inode as nat),
{
    let mut s: String = "unix:dev:".to_owned();
    s.append(decimal_of(device).as_str());
    s.append(":ino:");
    s.append(decimal_of(inode).as_str());
    s
}

// ---------------------------------------------------------------------------
// Runtime options
// ---------------------------------------------------------------------------

/// What a command line overrides. `None` means the agent's own default: no argument at all.
pub struct ExecOptions {
    pub model: Option<String>,
    pub provider: Option<String>,
    pub effort: Option<String>,
}

/// `key=value`, where there is a value.
pub open spec fn setting(key: Seq<char>, value: Option<Seq<char>>) -> Seq<Seq<char>> {
    match value {
        Some(v) => seq![key + v],
        None => Seq::empty(),
    }
}

impl ExecOptions {
    /// Nothing is overridden.
    pub open spec fn plain(self) -> bool {
        self.model is None && self.provider is None && self.effort is None
    }

    /// The overrides as a record shows them.
    pub open spec fn summary(self) -> Seq<char> {
        if self.plain() {
            "agent-default"@
        } else {
            joined(
                setting("model="@, self.model.deep_view()) + setting(
                    "provider="@,
                    self.provider.deep_view(),
                ) + setting("effort="@, self.effort.deep_view()),
                ","@,
            )
        }
    }

    /// Whether nothing is overridden.
    pub fn is_default(&self) -> (r: bool)
        ensures
            r == self.plain(),
    {
        self.model.is_none() && self.provider.is_none() && self.effort.is_none()
    }

    /// The overrides as a record shows them; `agent-default` when there are none.
    pub fn override_summary(&self) -> (r: String)
        ensures
            r@ == self.summary(),
    {
        let mut parts: Vec<String> = Vec::new();
        add_setting(&mut parts, "model=", &self.model);
        add_setting(&mut parts, "provider=", &self.provider);
        add_setting(&mut parts, "effort=", &self.effort);
        assert(texts(parts@) =~= setting("model="@, self.model.deep_view()) + setting(
            "provider="@,
            self.provider.deep_view(),
        ) + setting("effort="@, self.effort.deep_view()));
        if parts.len() == 0 {
            assert(texts(parts@).len() == 0);
            "agent-default".to_owned()
        } else {
            assert(texts(parts@).len() > 0);
            join(&parts, ",")
        }
    }
}

impl Default for ExecOptions {
    fn default() -> (r: Self)
        ensures
            r.plain(),
    {
        ExecOptions { model: None, provider: None, effort: None }
    }
}

/// Adds `key=value` to the list, where there is a value.
fn add_setting(parts: &mut Vec<String>, key: &str, value: &Option<String>)
    ensures
        texts(final(parts)@) == texts(old(parts)@) + setting(key@, value.deep_view()),
{
    match value {
        Some(v) => {
            let mut s: String = key.to_owned();
            s.append(v.as_str());
            let ghost before = texts(parts@);
            parts.push(s);
            assert(texts(parts@) =~= before + seq![s@]);
        },
        None => {
            assert(texts(parts@) =~= texts(parts@) + Seq::<Seq<char>>::empty());
        },
    }
}

// ---------------------------------------------------------------------------
// Command lines
// ---------------------------------------------------------------------------

/// A command line, as a mathematical value.
pub struct CommandLine {
    pub program: Seq<char>,
    pub args: Seq<Seq<char>>,
    pub cwd: Option<Seq<char>>,
}

impl DeepView for AgentCommand {
    type V = CommandLine;

    open spec fn deep_view(&self) -> CommandLine {
        CommandLine {
            program: self.program@,
            args: texts(self.args@),
            cwd: self.cwd.deep_view(),
        }
    }
}

/// A flag and its value, where there is a value.
pub open spec fn flag(name: Seq<char>, value: Option<Seq<char>>) -> Seq<Seq<char>> {
    match value {
        Some(v) => seq![name, v],
        None => Seq::empty(),
    }
}

/// An argument, where there is one.
pub open spec fn argument(value: Option<Seq<char>>) -> Seq<Seq<char>> {
    match value {
        Some(v) => seq![v],
        None => Seq::empty(),
    }
}

/// Adds one argument.
pub(crate) fn add_word(args: &mut Vec<String>, word: &str)
    ensures
        texts(final(args)@) == texts(old(args)@).push(word@),
{
    let ghost before = texts(args@);
    let w: String = word.to_owned();
    args.push(w);
    assert(texts(args@) =~= before.push(w@));
}

/// Adds a flag and its value, where there is a value.
pub(crate) fn add_flag(args: &mut Vec<String>, name: &str, value: &Option<String>)
    ensures
        texts(final(args)@) == texts(old(args)@) + flag(name@, value.deep_view()),
{
    let ghost before = texts(args@);
    match value {
        Some(v) => {
            add_word(args, name);
            add_word(args, v.as_str());
            assert(texts(args@) =~= before + seq![name@, v@]);
        },
        None => {
            assert(before =~= before + Seq::<Seq<char>>::empty());
        },
    }
}

/// Adds an argument, where there is one.
pub(crate) fn add_argument(args: &mut Vec<String>, value: &Option<String>)
    ensures
        texts(final(args)@) == texts(old(args)@) + argument(value.deep_view()),
{
    let ghost before = texts(args@);
    match value {
        Some(v) => {
            add_word(args, v.as_str());
            assert(texts(args@) =~= before + seq![v@]);
        },
        None => {
            assert(before =~= before + Seq::<Seq<char>>::empty());
        },
    }
}

// ---------------------------------------------------------------------------
// Lines
// ---------------------------------------------------------------------------

/// What one source line contributes: a message at most, and what it says of the execution.
pub struct ParsedLine {
    pub message: Option<ParsedSessionMessage>,
    pub observation: MemberObservation,
}

/// What one source line contributes, as a mathematical value.
pub struct Line {
    pub message: Option<Message>,
    pub observation: MemberObservation,
}

impl DeepView for ParsedLine {
    type V = Line;

    open spec fn deep_view(&self) -> Line {
        Line { message: self.message.deep_view(), observation: self.observation }
    }
}

/// A line that only counts.
pub open spec fn counted(observation: MemberObservation) -> Line {
    Line { message: None, observation }
}

/// A line that only speaks.
pub open spec fn spoken(message: Message) -> Line {
    Line { message: Some(message), observation: MemberObservation::nothing() }
}

impl ParsedLine {
    /// A line that carries counts and no message.
    pub fn observation_only(observation: MemberObservation) -> (r: Self)
        ensures
            r.deep_view() == counted(observation),
    {
        ParsedLine { message: None, observation }
    }

    /// A line that carries one message and no counts.
    pub fn message_only(message: ParsedSessionMessage) -> (r: Self)
        ensures
            r.deep_view() == spoken(message.deep_view()),
    {
        ParsedLine { message: Some(message), observation: MemberObservation::default() }
    }
}

/// A message with an identity, a speaker and a text, and nothing more.
pub open spec fn message_of(
    source_message_id: Option<Seq<char>>,
    role: SessionMessageRole,
    content: Seq<char>,
) -> Message {
    Message {
        source_message_id,
        source_position: Seq::empty(),
        ts: None,
        role,
        content,
        provider: None,
        model: None,
    }
}

/// A conversation message out of one line. Where it stands, when it was said and which model
/// said it are left open.
pub fn parsed_message(
    source_message_id: Option<String>,
    role: SessionMessageRole,
    content: String,
) -> (r: ParsedSessionMessage)
    ensures
        r.deep_view() == message_of(source_message_id.deep_view(), role, content@),
{
    ParsedSessionMessage {
        source_message_id,
        source_position: String::new(),
        ts: None,
        role,
        content,
        provider: None,
        model: None,
    }
}

// ---------------------------------------------------------------------------
// Titles
// ---------------------------------------------------------------------------

/// `s` cut to `max` characters, with an ellipsis where something was cut off.
pub open spec fn shortened(s: Seq<char>, max: int) -> Seq<char> {
    if s.len() <= max {
        s
    } else {
        s.take(max).push('…')
    }
}

/// The text cut to `max` characters, with an ellipsis where something was cut off.
pub fn truncate_text(s: &str, max: usize) -> (r: String)
    ensures
        r@ == shortened(s@, max as int),
{
    let v = chars_of(s);
    if v.len() <= max {
        s.to_owned()
    } else {
        let mut t = string_of(&v, 0, max);
        assert(t@ =~= s@.take(max as int));
        t.push('…');
        t
    }
}

/// Text that the runtime put there rather than the user: a `<…>` block or a `#` heading, after
/// any white space.
pub open spec fn injected(text: Seq<char>) -> bool {
    let t = skip_white(text);
    t.len() > 0 && (t[0] == '<' || t[0] == '#')
}

/// Whether a text is an injected preamble rather than the user's own words.
pub fn is_injected_preamble(text: &str) -> (r: bool)
    ensures
        r == injected(text@),
{
    let t = chars_of(trim_start(text).as_str());
    t.len() > 0 && (t[0] == '<' || t[0] == '#')
}

/// The lines of a text that are not blank, each without its surrounding white space.
pub open spec fn solid_lines(ls: Seq<Seq<char>>) -> Seq<Seq<char>>
    decreases ls.len(),
{
    if ls.len() == 0 {
        Seq::empty()
    } else {
        let rest = solid_lines(ls.drop_last());
        if blank(ls.last()) {
            rest
        } else {
            rest.push(trimmed(ls.last()))
        }
    }
}

/// A text as one line: its solid lines with a space between them.
pub open spec fn one_line(text: Seq<char>) -> Seq<char> {
    joined(solid_lines(lines_of(text)), " "@)
}

/// The title that a text makes. Nothing, and what looks like a machine's output, makes none.
pub open spec fn title_of(text: Seq<char>) -> Option<Seq<char>> {
    let t = one_line(text);
    if t.len() == 0 || t[0] == '{' || t[0] == '[' {
        None
    } else {
        Some(shortened(t, 36))
    }
}

/// A session title from one text.
pub fn title_from_text(text: &str) -> (r: Option<String>)
    ensures
        r.deep_view() == title_of(text@),
{
    let ls = lines(text);
    let ghost all = texts(ls@);
    let mut solid: Vec<String> = Vec::new();
    let mut i: usize = 0;
    assert(all.take(0) =~= Seq::<Seq<char>>::empty());
    assert(texts(solid@) =~= Seq::<Seq<char>>::empty());
    while i < ls.len()
        invariant
            i <= ls@.len(),
            all == texts(ls@),
            texts(solid@) == solid_lines(all.take(i as int)),
        decreases ls@.len() - i,
    {
        let t = trim(ls[i].as_str());
        assert(all.take(i + 1).drop_last() =~= all.take(i as int));
        assert(all.take(i + 1).last() == ls@[i as int]@);
        if !t.as_str().is_empty() {
            let ghost before = texts(solid@);
            solid.push(t);
            assert(texts(solid@) =~= before.push(t@));
        }
        i = i + 1;
    }
    assert(all.take(i as int) =~= all);
    let t = join(&solid, " ");
    let v = chars_of(t.as_str());
    if v.len() == 0 || v[0] == '{' || v[0] == '[' {
        None
    } else {
        Some(truncate_text(t.as_str(), 36))
    }
}

// ---------------------------------------------------------------------------
// Laws
// ---------------------------------------------------------------------------

/// A text is injected exactly where its first character that is no white space opens a tag or a
/// heading.
pub proof fn an_injected_text_opens_a_tag_or_a_heading(text: Seq<char>, i: int)
    requires
        0 <= i < text.len(),
        !white(text[i]),
        forall|j: int| 0 <= j < i ==> white(#[trigger] text[j]),
    ensures
        injected(text) <==> text[i] == '<' || text[i] == '#',
{
    skipping_stops(text, i);
}

/// A text of white space alone is not injected.
pub proof fn white_space_is_not_injected(text: Seq<char>)
    requires
        forall|j: int| 0 <= j < text.len() ==> white(#[trigger] text[j]),
    ensures
        !injected(text),
    decreases text.len(),
{
    if text.len() > 0 {
        assert(white(text[0]));
        assert(forall|j: int| 0 <= j < text.drop_first().len() ==> white(
            #[trigger] text.drop_first()[j],
        )) by {
            assert forall|j: int| 0 <= j < text.drop_first().len() implies white(
                #[trigger] text.drop_first()[j],
            ) by {
                assert(white(text[j + 1]));
            }
        }
        white_space_is_not_injected(text.drop_first());
    }
}

proof fn skipping_stops(text: Seq<char>, i: int)
    requires
        0 <= i < text.len(),
        !white(text[i]),
        forall|j: int| 0 <= j < i ==> white(#[trigger] text[j]),
    ensures
        skip_white(text) == text.skip(i),
    decreases i,
{
    if i == 0 {
        assert(text.skip(0) =~= text);
    } else {
        assert(white(text[0]));
        let rest = text.drop_first();
        assert forall|j: int| 0 <= j < i - 1 implies white(#[trigger] rest[j]) by {
            assert(white(text[j + 1]));
        }
        skipping_stops(rest, i - 1);
        assert(rest.skip(i - 1) =~= text.skip(i));
    }
}

/// A text that is short enough stands as it is; a longer one is cut, with an ellipsis behind what
/// is left.
pub proof fn a_long_text_is_cut(s: Seq<char>, max: int)
    requires
        0 <= max,
    ensures
        s.len() <= max ==> shortened(s, max) == s,
        s.len() > max ==> shortened(s, max).len() == max + 1 && shortened(s, max)[max] == '…' && (
        forall|i: int| 0 <= i < max ==> #[trigger] shortened(s, max)[i] == s[i]),
{
}

/// A text makes a title of its lines that are not blank, a space between them; nothing, and what
/// opens an object or a list, makes none.
pub proof fn a_title_is_of_the_text(text: Seq<char>)
    ensures
        ({
            let line = joined(solid_lines(lines_of(text)), " "@);
            match title_of(text) {
                Some(t) => {
                    &&& line.len() > 0
                    &&& line[0] != '{'
                    &&& line[0] != '['
                    &&& line.len() <= 36 ==> t == line
                    &&& line.len() > 36 ==> t == line.take(36).push('…')
                },
                None => line.len() == 0 || line[0] == '{' || line[0] == '[',
            }
        }),
{
}

/// Lines that are not blank are kept in order, without the white space around them.
pub proof fn solid_lines_keep_their_order(ls: Seq<Seq<char>>, line: Seq<char>)
    ensures
        blank(line) ==> solid_lines(ls.push(line)) == solid_lines(ls),
        !blank(line) ==> solid_lines(ls.push(line)) == solid_lines(ls).push(trimmed(line)),
        solid_lines(Seq::empty()).len() == 0,
{
    assert(ls.push(line).drop_last() =~= ls);
}

/// A flag stands before its value, and both are left out where there is none.
pub proof fn a_flag_stands_before_its_value(name: Seq<char>, value: Option<Seq<char>>)
    ensures
        value matches Some(v) ==> flag(name, value).len() == 2 && flag(name, value)[0] == name
            && flag(name, value)[1] == v && argument(value).len() == 1 && argument(value)[0] == v
            && setting(name, value).len() == 1 && setting(name, value)[0] == name + v,
        value is None ==> flag(name, value).len() == 0 && argument(value).len() == 0 && setting(
            name,
            value,
        ).len() == 0,
{
}

/// A record of overrides tells each that is made, and that there are none.
pub proof fn overrides_are_told(o: ExecOptions)
    ensures
        o.plain() <==> o.model is None && o.provider is None && o.effort is None,
        o.plain() ==> o.summary() == "agent-default"@,
        !o.plain() ==> o.summary() == joined(
            (match o.model {
                Some(m) => seq!["model="@ + m@],
                None => Seq::empty(),
            }) + (match o.provider {
                Some(p) => seq!["provider="@ + p@],
                None => Seq::empty(),
            }) + (match o.effort {
                Some(e) => seq!["effort="@ + e@],
                None => Seq::empty(),
            }),
            ","@,
        ),
{
}

/// A command line is shown with its program first and every argument behind it; only one with a
/// space, a line end or a quote in it is quoted.
pub proof fn a_command_line_is_shown_whole(c: AgentCommand)
    ensures
        exists|words: Seq<Seq<char>>|
            {
                &&& #[trigger] joined(words, " "@) == c.shown()
                &&& words.len() == c.args@.len() + 1
                &&& words[0] == c.program@
                &&& forall|i: int|
                    0 <= i < c.args@.len() ==> #[trigger] words[i + 1] == (if c.args@[i]@.contains(
                        ' ',
                    ) || c.args@[i]@.contains('\n') || c.args@[i]@.contains('"') {
                        debug_form(c.args@[i]@)
                    } else {
                        c.args@[i]@
                    })
            },
{
    let words = seq![c.program@] + texts(c.args@).map_values(|a: Seq<char>| shown_argument(a));
    assert(joined(words, " "@) == c.shown());
    assert forall|i: int| 0 <= i < c.args@.len() implies #[trigger] words[i + 1]
        == shown_argument(c.args@[i]@) by {
        assert(texts(c.args@)[i] == c.args@[i]@);
    }
}

/// Only a root and a fork are roots of a session of their own.
pub proof fn roots_are_roots(kind: DiscoveredMemberKind)
    ensures
        kind.rooted() <==> kind == DiscoveredMemberKind::Root || kind
            == DiscoveredMemberKind::ForkRoot,
{
}

/// A message that a line makes has the identity, the speaker and the text that it is given, and
/// leaves its place, its time and its model open.
pub proof fn a_message_is_made_of_what_is_given(
    id: Option<Seq<char>>,
    role: SessionMessageRole,
    content: Seq<char>,
    n: MemberObservation,
)
    ensures
        message_of(id, role, content).source_message_id == id,
        message_of(id, role, content).role == role,
        message_of(id, role, content).content == content,
        message_of(id, role, content).source_position.len() == 0,
        message_of(id, role, content).ts is None,
        message_of(id, role, content).provider is None,
        message_of(id, role, content).model is None,
        counted(n).message is None,
        counted(n).observation == n,
        spoken(message_of(id, role, content)).message == Some(message_of(id, role, content)),
        spoken(message_of(id, role, content)).observation.tool_calls == 0,
        spoken(message_of(id, role, content)).observation.tool_errors == 0,
        spoken(message_of(id, role, content)).observation.compactions == 0,
        spoken(message_of(id, role, content)).observation.side_activity == 0,
{
}

/// A member is seen with all that was found of it.
pub proof fn a_member_is_seen_whole(m: DiscoveredMember)
    ensures
        m.deep_view().agent == m.agent,
        m.deep_view().source_member_id == m.source_member_id@,
        m.deep_view().kind == m.kind,
        m.deep_view().parent_source_member_id == m.parent_source_member_id.deep_view(),
        m.deep_view().root_hint == m.root_hint.deep_view(),
        m.deep_view().source_kind == m.source_kind@,
        m.deep_view().source_path == m.source_path@,
        m.deep_view().cwd == m.cwd.deep_view(),
        m.deep_view().started_at == m.started_at.deep_view(),
        m.deep_view().last_activity_at == m.last_activity_at.deep_view(),
        m.deep_view().native_title == m.native_title.deep_view(),
        m.deep_view().first_user_text == m.first_user_text.deep_view(),
        m.deep_view().first_agent_text == m.first_agent_text.deep_view(),
        m.deep_view().metadata == m.metadata.tree(),
{
}

} // verus!
