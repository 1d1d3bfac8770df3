//! Codex: `sessions/YYYY/MM/DD/rollout-*.jsonl`.
//!
//! A rollout is the root of its session, unless Codex itself wrote it: a thread of a subagent is
//! a child, a review thread is a side, and a page that continues another rollout is a session of
//! its own. Conversation is the root's user and assistant messages only; messages between
//! threads, tool calls and compactions are counted.
use crate::adapters::content::{
    document_views, documents, first_of, first_text, observed, one_compaction, one_side_activity,
    one_tool_call, prose, prose_of, read_documents, Blocks,
};
use crate::adapters::discovery::{
    find_members, members_are_of_one_agent, members_in, MemberFinder,
};
use crate::adapters::fingerprint::{detect_format, format_of, MAX_PARSE_LINES};
use crate::adapters::reader::{
    delta_of, read_jsonl_delta, LineFormat, MemberReadDelta, Provenance, ProvenanceState,
    SourceFile, StatsCapabilities,
};
use crate::adapters::{
    add_argument, add_flag, add_word, argument, counted, flag, injected, is_injected_preamble,
    message_of, parsed_message, shortened, spoken, truncate_text, AgentCommand, CommandLine,
    DiscoveredMember, DiscoveredMemberKind, ExecOptions, Line, Member, ParsedLine,
};
use crate::domain::{
    copy_text, Agent, AgentInstallation, SessionMemberCursor, SessionMemberRelation,
    SessionMessageRole,
};
use crate::error::{AppError, Fault};
use crate::json::{named_trees, object_tree, Json, Tree};
use crate::paths::{extension, extension_of, file_stem, stem_of, FoundFile};
use crate::text::{
    after_last, blank, contains, contains_char, has_text, is_blank, join, joined, same, split,
    split_on, starts, starts_with, strip_prefix, tail_after, texts,
};
use vstd::prelude::*;

verus! {

/// The adapter for Codex.
pub struct CodexAdapter;

// ---------------------------------------------------------------------------
// File names
// ---------------------------------------------------------------------------

/// What follows `rollout-` in a rollout's name.
pub open spec fn rollout_name(name: Seq<char>) -> Option<Seq<char>> {
    if starts(stem_of(name), "rollout-"@) {
        Some(stem_of(name).skip("rollout-"@.len() as int))
    } else {
        None
    }
}

/// The thread id in a rollout's name: the last five parts between dashes, of what follows the
/// last underscore.
pub open spec fn thread_id(name: Seq<char>) -> Option<Seq<char>> {
    match rollout_name(name) {
        None => None,
        Some(rest) => {
            let parts = split_on(after_last(rest, '_'), '-');
            if parts.len() < 5 {
                None
            } else {
                Some(joined(parts.skip(parts.len() - 5), "-"@))
            }
        },
    }
}

/// The name of a page that continues another rollout: it holds two ids.
pub open spec fn forked_name(name: Seq<char>) -> bool {
    match rollout_name(name) {
        None => false,
        Some(rest) => rest.contains('_'),
    }
}

/// The thread id in a rollout's name.
pub fn thread_id_from_filename(name: &str) -> (r: Option<String>)
    ensures
        r.deep_view() == thread_id(name@),
{
    let stem = file_stem(name);
    match strip_prefix(stem.as_str(), "rollout-") {
        None => None,
        Some(rest) => {
            let own = tail_after(rest.as_str(), '_');
            let parts = split(own.as_str(), '-');
            let ghost all = texts(parts@);
            if parts.len() < 5 {
                return None;
            }
            let mut last: Vec<String> = Vec::new();
            let from: usize = parts.len() - 5;
            let mut i: usize = from;
            assert(texts(last@) =~= all.subrange(from as int, from as int));
            while i < parts.len()
                invariant
                    from <= i <= parts@.len(),
                    all == texts(parts@),
                    texts(last@) == all.subrange(from as int, i as int),
                decreases parts@.len() - i,
            {
                add_word(&mut last, parts[i].as_str());
                i = i + 1;
                assert(all.subrange(from as int, i as int) =~= all.subrange(
                    from as int,
                    i - 1,
                ).push(all[i - 1]));
            }
            assert(all.subrange(from as int, i as int) =~= all.skip(from as int));
            Some(join(&last, "-"))
        },
    }
}

/// Whether a rollout's name says that it continues another one.
pub fn is_forked_page_name(name: &str) -> (r: bool)
    ensures
        r == forked_name(name@),
{
    let stem = file_stem(name);
    match strip_prefix(stem.as_str(), "rollout-") {
        None => false,
        Some(rest) => contains_char(rest.as_str(), '_'),
    }
}

/// What a rollout is. A continued page is a session of its own, whatever it continues.
pub open spec fn kind_of(thread_source: Option<Seq<char>>, forked: bool) -> DiscoveredMemberKind {
    if forked {
        DiscoveredMemberKind::ForkRoot
    } else if thread_source == Some("subagent"@) {
        DiscoveredMemberKind::Child
    } else if thread_source == Some("guardian_review"@) {
        DiscoveredMemberKind::Side
    } else {
        DiscoveredMemberKind::Root
    }
}

fn text_is(s: &Option<String>, value: &str) -> (r: bool)
    ensures
        r == (s.deep_view() == Some(value@)),
{
    match s {
        Some(t) => same(t.as_str(), value),
        None => false,
    }
}

/// What a rollout is.
pub fn member_kind_of(thread_source: &Option<String>, forked: bool) -> (r: DiscoveredMemberKind)
    ensures
        r == kind_of(thread_source.deep_view(), forked),
{
    if forked {
        DiscoveredMemberKind::ForkRoot
    } else if text_is(thread_source, "subagent") {
        DiscoveredMemberKind::Child
    } else if text_is(thread_source, "guardian_review") {
        DiscoveredMemberKind::Side
    } else {
        DiscoveredMemberKind::Root
    }
}

// ---------------------------------------------------------------------------
// Facts of a rollout
// ---------------------------------------------------------------------------

/// What the documents of a rollout say about it.
pub struct Rollout {
    pub meta_seen: bool,
    pub meta_id: Option<String>,
    pub legacy_session_id: Option<String>,
    pub cwd: Option<String>,
    pub started_at: Option<String>,
    pub parent: Option<String>,
    pub fork_base: Option<String>,
    pub thread_source: Option<String>,
    pub first_user_text: Option<String>,
    pub first_agent_text: Option<String>,
}

/// What the documents of a rollout say about it, as a mathematical value.
pub struct RolloutFacts {
    pub meta_seen: bool,
    pub meta_id: Option<Seq<char>>,
    pub legacy_session_id: Option<Seq<char>>,
    pub cwd: Option<Seq<char>>,
    pub started_at: Option<Seq<char>>,
    pub parent: Option<Seq<char>>,
    pub fork_base: Option<Seq<char>>,
    pub thread_source: Option<Seq<char>>,
    pub first_user_text: Option<Seq<char>>,
    pub first_agent_text: Option<Seq<char>>,
}

impl DeepView for Rollout {
    type V = RolloutFacts;

    open spec fn deep_view(&self) -> RolloutFacts {
        RolloutFacts {
            meta_seen: self.meta_seen,
            meta_id: self.meta_id.deep_view(),
            legacy_session_id: self.legacy_session_id.deep_view(),
            cwd: self.cwd.deep_view(),
            started_at: self.started_at.deep_view(),
            parent: self.parent.deep_view(),
            fork_base: self.fork_base.deep_view(),
            thread_source: self.thread_source.deep_view(),
            first_user_text: self.first_user_text.deep_view(),
            first_agent_text: self.first_agent_text.deep_view(),
        }
    }
}

/// The payload of an envelope; a line without one is its own payload.
pub open spec fn payload_of(v: Tree) -> Tree {
    match v.field("payload"@) {
        Some(p) => p,
        None => v,
    }
}

impl RolloutFacts {
    /// Nothing known yet.
    pub open spec fn none() -> RolloutFacts {
        RolloutFacts {
            meta_seen: false,
            meta_id: None,
            legacy_session_id: None,
            cwd: None,
            started_at: None,
            parent: None,
            fork_base: None,
            thread_source: None,
            first_user_text: None,
            first_agent_text: None,
        }
    }

    /// Codex wrote the thread itself: there is no user to name it after.
    pub open spec fn internal(self) -> bool {
        self.thread_source == Some("subagent"@) || self.thread_source == Some("guardian_review"@)
    }

    /// The head of the rollout has said all that is looked for.
    pub open spec fn complete(self) -> bool {
        self.meta_seen && (self.first_user_text is Some || (self.internal()
            && self.first_agent_text is Some))
    }

    /// After a `session_meta` document.
    pub open spec fn with_meta(self, p: Tree) -> RolloutFacts {
        RolloutFacts {
            meta_seen: true,
            meta_id: p.text_at("id"@),
            legacy_session_id: p.text_at("session_id"@),
            cwd: p.text_at("cwd"@),
            started_at: p.text_at("timestamp"@),
            parent: p.text_at("parent_thread_id"@),
            thread_source: p.text_at("thread_source"@),
            fork_base: match p.field("history_base"@) {
                Some(h) => h.text_at("thread_id"@),
                None => None,
            },
            ..self
        }
    }

    /// After a message.
    pub open spec fn with_message(self, p: Tree) -> RolloutFacts {
        let text = prose(p.field_or_null("content"@), Blocks::Any);
        RolloutFacts {
            first_user_text: if p.text_at("role"@) == Some("user"@) && self.first_user_text is None
                && !self.internal() && text.len() > 0 && !injected(text) {
                Some(shortened(text, 400))
            } else {
                self.first_user_text
            },
            first_agent_text: if p.text_at("role"@) == Some("assistant"@)
                && self.first_agent_text is None && text.len() > 0 {
                Some(text)
            } else {
                self.first_agent_text
            },
            ..self
        }
    }

    /// After one more document.
    pub open spec fn after(self, v: Tree) -> RolloutFacts {
        if self.complete() {
            self
        } else if v.text_at("type"@) == Some("session_meta"@) {
            self.with_meta(payload_of(v))
        } else if v.text_at("type"@) == Some("response_item"@) && payload_of(v).text_at("type"@)
            == Some("message"@) {
            self.with_message(payload_of(v))
        } else {
            self
        }
    }

    /// What a rollout's documents say together.
    pub open spec fn of(docs: Seq<(int, Tree)>) -> RolloutFacts
        decreases docs.len(),
    {
        if docs.len() == 0 {
            RolloutFacts::none()
        } else {
            RolloutFacts::of(docs.drop_last()).after(docs.last().1)
        }
    }

    /// The identity of the thread. The name decides for a continued page, whose documents still
    /// name the rollout it continues; elsewhere the documents do. The conversation that the
    /// writer was joined to is a last resort.
    pub open spec fn identity(self, name: Seq<char>) -> Option<Seq<char>> {
        let by_name = thread_id(name);
        if forked_name(name) {
            first_of(first_of(by_name, self.meta_id), self.legacy_session_id)
        } else {
            first_of(first_of(self.meta_id, by_name), self.legacy_session_id)
        }
    }

    /// The parent of a thread with identity `id`. What a continued page was continued from is
    /// its parent where nothing else is named, unless that is the page itself.
    pub open spec fn parent_of(self, id: Seq<char>) -> Option<Seq<char>> {
        match self.parent {
            Some(p) => Some(p),
            None => match self.fork_base {
                Some(b) if b != id => Some(b),
                _ => None,
            },
        }
    }
}

impl Rollout {
    fn new() -> (r: Rollout)
        ensures
            r.deep_view() == RolloutFacts::none(),
    {
        Rollout {
            meta_seen: false,
            meta_id: None,
            legacy_session_id: None,
            cwd: None,
            started_at: None,
            parent: None,
            fork_base: None,
            thread_source: None,
            first_user_text: None,
            first_agent_text: None,
        }
    }

    fn is_internal(&self) -> (r: bool)
        ensures
            r == self.deep_view().internal(),
    {
        text_is(&self.thread_source, "subagent") || text_is(&self.thread_source, "guardian_review")
    }

    fn is_complete(&self) -> (r: bool)
        ensures
            r == self.deep_view().complete(),
    {
        self.meta_seen && (self.first_user_text.is_some() || (self.is_internal()
            && self.first_agent_text.is_some()))
    }

    fn note(&mut self, v: &Json)
        ensures
            final(self).deep_view() == old(self).deep_view().after(v.tree()),
    {
        if self.is_complete() {
            return;
        }
        let p: &Json = match v.get("payload") {
            Some(p) => p,
            None => v,
        };
        if v.text_is("type", "session_meta") {
            self.meta_seen = true;
            self.meta_id = p.string_at("id");
            self.legacy_session_id = p.string_at("session_id");
            self.cwd = p.string_at("cwd");
            self.started_at = p.string_at("timestamp");
            self.parent = p.string_at("parent_thread_id");
            self.thread_source = p.string_at("thread_source");
            self.fork_base = match p.get("history_base") {
                Some(h) => h.string_at("thread_id"),
                None => None,
            };
        } else if v.text_is("type", "response_item") && p.text_is("type", "message") {
            let text = prose_of(p.get("content"), Blocks::Any);
            if p.text_is("role", "user") && self.first_user_text.is_none() && !self.is_internal()
                && !text.as_str().is_empty() && !is_injected_preamble(text.as_str()) {
                self.first_user_text = Some(truncate_text(text.as_str(), 400));
            }
            if p.text_is("role", "assistant") && self.first_agent_text.is_none()
                && !text.as_str().is_empty() {
                self.first_agent_text = Some(text);
            }
        }
    }
}

// ---------------------------------------------------------------------------
// Discovery
// ---------------------------------------------------------------------------

/// The member that a rollout is.
pub open spec fn member_of(
    facts: RolloutFacts,
    name: Seq<char>,
    path: Seq<char>,
    modified: Option<Seq<char>>,
    id: Seq<char>,
) -> Member {
    let kind = kind_of(facts.thread_source, forked_name(name));
    let parent = facts.parent_of(id);
    Member {
        agent: Agent::Codex,
        source_member_id: id,
        kind,
        parent_source_member_id: parent,
        root_hint: parent,
        source_kind: "codex_rollout"@,
        source_path: path,
        cwd: facts.cwd,
        started_at: facts.started_at,
        last_activity_at: modified,
        native_title: None,
        first_user_text: if kind.rooted() {
            facts.first_user_text
        } else {
            None
        },
        first_agent_text: match facts.first_agent_text {
            Some(t) if kind.rooted() => Some(shortened(t, 400)),
            _ => None,
        },
        metadata: Tree::Object(
            seq![
                (
                    "thread_source"@,
                    match facts.thread_source {
                        Some(t) => Tree::Text(t),
                        None => Tree::Null,
                    },
                ),
            ],
        ),
    }
}

/// What a rollout without any identity is refused with.
pub open spec fn no_identity(path: Seq<char>) -> Seq<char> {
    "无法解析 Codex session id: "@ + path
}

fn thread_source_metadata(thread_source: &Option<String>) -> (r: Json)
    ensures
        r.tree() == Tree::Object(
            seq![
                (
                    "thread_source"@,
                    match thread_source.deep_view() {
                        Some(t) => Tree::Text(t),
                        None => Tree::Null,
                    },
                ),
            ],
        ),
{
    broadcast use object_tree;

    let value: Json = match thread_source {
        Some(t) => Json::Text(t.clone()),
        None => Json::Null,
    };
    let mut fields: Vec<(String, Json)> = Vec::new();
    fields.push(("thread_source".to_owned(), value));
    assert(named_trees(fields@) =~= seq![
        (
            "thread_source"@,
            match thread_source.deep_view() {
                Some(t) => Tree::Text(t),
                None => Tree::Null,
            },
        ),
    ]);
    Json::Object(fields)
}

impl CodexAdapter {
    /// The member that a rollout is.
    pub fn parse_member(file: &FoundFile) -> (r: Result<DiscoveredMember, AppError>)
        ensures
            match RolloutFacts::of(documents(file.data@)).identity(file.name@) {
                Some(id) => r matches Ok(m) && m.deep_view() == member_of(
                    RolloutFacts::of(documents(file.data@)),
                    file.name@,
                    file.path@,
                    file.modified.deep_view(),
                    id,
                ),
                None => r matches Err(e) && e.deep_view() == Fault::Other(no_identity(file.path@)),
            },
    {
        CodexAdapter::member_from(file, &read_documents(file.data.as_slice()))
    }

    /// The member that a rollout of these documents is, each with the number of its line.
    pub fn member_from(file: &FoundFile, docs: &Vec<(usize, Json)>) -> (r: Result<
        DiscoveredMember,
        AppError,
    >)
        ensures
            ({
                let facts = RolloutFacts::of(document_views(docs@));
                match facts.identity(file.name@) {
                    Some(id) => r matches Ok(m) && m.deep_view() == member_of(
                        facts,
                        file.name@,
                        file.path@,
                        file.modified.deep_view(),
                        id,
                    ),
                    None => r matches Err(e) && e.deep_view() == Fault::Other(
                        no_identity(file.path@),
                    ),
                }
            }),
    {
        let ghost all = document_views(docs@);
        let mut facts = Rollout::new();
        let mut i: usize = 0;
        assert(all.take(0) =~= Seq::<(int, Tree)>::empty());
        while i < docs.len()
            invariant
                i <= docs@.len(),
                all == document_views(docs@),
                facts.deep_view() == RolloutFacts::of(all.take(i as int)),
            decreases docs@.len() - i,
        {
            assert(all.take(i + 1).drop_last() =~= all.take(i as int));
            assert(all.take(i + 1).last().1 == docs@[i as int].1.tree());
            facts.note(&docs[i].1);
            i = i + 1;
        }
        assert(all.take(i as int) =~= all);
        let ghost known = facts.deep_view();
        let name: &str = file.name.as_str();
        let forked: bool = is_forked_page_name(name);
        let by_name = thread_id_from_filename(name);
        let identity: Option<String> = if forked {
            first_text(first_text(by_name, copy_text(&facts.meta_id)), facts.legacy_session_id)
        } else {
            first_text(first_text(copy_text(&facts.meta_id), by_name), facts.legacy_session_id)
        };
        assert(identity.deep_view() == known.identity(file.name@));
        let id: String = match identity {
            Some(id) => id,
            None => {
                let mut message: String = "无法解析 Codex session id: ".to_owned();
                message.append(file.path.as_str());
                return Err(AppError::Other(message));
            },
        };
        let parent: Option<String> = match facts.parent {
            Some(p) => Some(p),
            None => match facts.fork_base {
                Some(b) => {
                    if same(b.as_str(), id.as_str()) {
                        None
                    } else {
                        Some(b)
                    }
                },
                None => None,
            },
        };
        let kind = member_kind_of(&facts.thread_source, forked);
        let rooted: bool = kind.is_logical_root();
        let first_agent_text: Option<String> = match facts.first_agent_text {
            Some(t) => {
                if rooted {
                    Some(truncate_text(t.as_str(), 400))
                } else {
                    None
                }
            },
            None => None,
        };
        Ok(
            DiscoveredMember {
                agent: Agent::Codex,
                source_member_id: id,
                kind,
                parent_source_member_id: copy_text(&parent),
                root_hint: parent,
                source_kind: "codex_rollout".to_owned(),
                source_path: file.path.clone(),
                cwd: facts.cwd,
                started_at: facts.started_at,
                last_activity_at: copy_text(&file.modified),
                native_title: None,
                first_user_text: if rooted {
                    facts.first_user_text
                } else {
                    None
                },
                first_agent_text,
                metadata: thread_source_metadata(&facts.thread_source),
            },
        )
    }
}

// ---------------------------------------------------------------------------
// Thread names
// ---------------------------------------------------------------------------

/// Codex's own names for its threads, from the session index: one `id` and `thread_name` per
/// line, later lines replacing earlier ones.
pub struct ThreadNames {
    pub names: Vec<(String, String)>,
}

/// The names in the documents of an index.
pub open spec fn names_in(docs: Seq<(int, Tree)>) -> Seq<(Seq<char>, Seq<char>)>
    decreases docs.len(),
{
    if docs.len() == 0 {
        Seq::empty()
    } else {
        let rest = names_in(docs.drop_last());
        match (docs.last().1.text_at("id"@), docs.last().1.text_at("thread_name"@)) {
            (Some(id), Some(name)) if !blank(name) => rest.push((id, name)),
            _ => rest,
        }
    }
}

/// The names in several indexes, one after the other.
pub open spec fn names_in_all(indexes: Seq<Vec<u8>>) -> Seq<(Seq<char>, Seq<char>)>
    decreases indexes.len(),
{
    if indexes.len() == 0 {
        Seq::empty()
    } else {
        names_in_all(indexes.drop_last()) + names_in(documents(indexes.last()@))
    }
}

/// The last name given to a thread.
pub open spec fn name_of(names: Seq<(Seq<char>, Seq<char>)>, id: Seq<char>) -> Option<Seq<char>>
    decreases names.len(),
{
    if names.len() == 0 {
        None
    } else if names.last().0 == id {
        Some(names.last().1)
    } else {
        name_of(names.drop_last(), id)
    }
}

/// `s` without the ellipses at its end.
pub open spec fn without_ellipsis(s: Seq<char>) -> Seq<char>
    decreases s.len(),
{
    if s.len() > 0 && s.last() == '…' {
        without_ellipsis(s.drop_last())
    } else {
        s
    }
}

fn drop_ellipsis(s: &str) -> (r: String)
    ensures
        r@ == without_ellipsis(s@),
{
    let v = crate::text::chars_of(s);
    let mut n: usize = v.len();
    assert(v@.take(n as int) =~= v@);
    while n > 0 && v[n - 1] == '…'
        invariant
            n <= v@.len(),
            without_ellipsis(v@) == without_ellipsis(v@.take(n as int)),
        decreases n,
    {
        assert(v@.take(n as int).drop_last() =~= v@.take(n - 1));
        n = n - 1;
    }
    assert(v@.subrange(0, n as int) =~= v@.take(n as int));
    crate::text::string_of(&v, 0, n)
}

/// The title that the index gives a thread. Until the model has named the thread, the index
/// holds the head of the first user message, which is no title.
pub open spec fn index_title(
    names: Seq<(Seq<char>, Seq<char>)>,
    id: Seq<char>,
    first_user_text: Option<Seq<char>>,
) -> Option<Seq<char>> {
    match name_of(names, id) {
        None => None,
        Some(name) => match first_user_text {
            Some(t) if starts(t, without_ellipsis(name)) => None,
            _ => Some(name),
        },
    }
}

impl ThreadNames {
    /// The names, as a mathematical value.
    pub open spec fn entries(self) -> Seq<(Seq<char>, Seq<char>)> {
        self.names@.map_values(|n: (String, String)| (n.0@, n.1@))
    }

    /// The names that the session indexes hold.
    pub fn load(indexes: &Vec<Vec<u8>>) -> (r: ThreadNames)
        ensures
            r.entries() == names_in_all(indexes@),
    {
        let mut names = ThreadNames { names: Vec::new() };
        let mut k: usize = 0;
        assert(names.entries() =~= Seq::<(Seq<char>, Seq<char>)>::empty());
        assert(indexes@.take(0) =~= Seq::<Vec<u8>>::empty());
        while k < indexes.len()
            invariant
                k <= indexes@.len(),
                names.entries() == names_in_all(indexes@.take(k as int)),
            decreases indexes@.len() - k,
        {
            assert(indexes@.take(k + 1).drop_last() =~= indexes@.take(k as int));
            assert(indexes@.take(k + 1).last() == indexes@[k as int]);
            names.add_index(indexes[k].as_slice());
            k = k + 1;
        }
        assert(indexes@.take(k as int) =~= indexes@);
        names
    }

    fn add_index(&mut self, data: &[u8])
        ensures
            final(self).entries() == old(self).entries() + names_in(documents(data@)),
    {
        self.add_names(&read_documents(data))
    }

    /// Adds the names that the documents of an index give, each with the number of its line.
    pub fn add_names(&mut self, docs: &Vec<(usize, Json)>)
        ensures
            final(self).entries() == old(self).entries() + names_in(document_views(docs@)),
    {
        let ghost all = document_views(docs@);
        let ghost first = self.entries();
        let mut i: usize = 0;
        assert(all.take(0) =~= Seq::<(int, Tree)>::empty());
        assert(first + Seq::<(Seq<char>, Seq<char>)>::empty() =~= first);
        while i < docs.len()
            invariant
                i <= docs@.len(),
                all == document_views(docs@),
                self.entries() == first + names_in(all.take(i as int)),
            decreases docs@.len() - i,
        {
            assert(all.take(i + 1).drop_last() =~= all.take(i as int));
            assert(all.take(i + 1).last().1 == docs@[i as int].1.tree());
            match (docs[i].1.string_at("id"), docs[i].1.string_at("thread_name")) {
                (Some(id), Some(name)) => {
                    if !is_blank(name.as_str()) {
                        let ghost before = self.entries();
                        let ghost pair = (id@, name@);
                        self.names.push((id, name));
                        assert(self.entries() =~= before.push(pair));
                        assert(before.push(pair) =~= first + names_in(all.take(i as int)).push(
                            pair,
                        ));
                    }
                },
                _ => {},
            }
            i = i + 1;
        }
        assert(all.take(i as int) =~= all);
    }

    /// The title that the index gives a thread.
    pub fn title_for(&self, thread_id: &str, first_user_text: &Option<String>) -> (r: Option<
        String,
    >)
        ensures
            r.deep_view() == index_title(
                self.entries(),
                thread_id@,
                first_user_text.deep_view(),
            ),
    {
        let ghost all = self.entries();
        let mut n: usize = self.names.len();
        assert(all.take(n as int) =~= all);
        while n > 0 && !same(self.names[n - 1].0.as_str(), thread_id)
            invariant
                n <= self.names@.len(),
                all == self.entries(),
                name_of(all, thread_id@) == name_of(all.take(n as int), thread_id@),
            decreases n,
        {
            assert(all.take(n as int).drop_last() =~= all.take(n - 1));
            n = n - 1;
        }
        if n == 0 {
            return None;
        }
        let name: &String = &self.names[n - 1].1;
        match first_user_text {
            Some(t) => {
                if starts_with(t.as_str(), drop_ellipsis(name.as_str()).as_str()) {
                    return None;
                }
            },
            None => {},
        }
        Some(name.clone())
    }
}

/// The file name of a rollout.
pub open spec fn rollout_file(name: Seq<char>) -> bool {
    extension_of(name) == Some("jsonl"@) && starts(name, "rollout-"@)
}

/// The member that discovery finds in a file. The name only sorts out; the content decides, and
/// a rollout that cannot be read as one is passed over.
pub open spec fn discovered(
    file: FoundFile,
    names: Seq<(Seq<char>, Seq<char>)>,
) -> Option<Member> {
    let facts = RolloutFacts::of(documents(file.data@));
    if !rollout_file(file.name@) || format_of(texts(file.head@), MAX_PARSE_LINES as int) != Some(
        Agent::Codex,
    ) {
        None
    } else {
        match facts.identity(file.name@) {
            None => None,
            Some(id) => {
                let m = member_of(facts, file.name@, file.path@, file.modified.deep_view(), id);
                Some(
                    Member {
                        native_title: if m.kind.rooted() {
                            index_title(names, id, m.first_user_text)
                        } else {
                            None
                        },
                        ..m
                    },
                )
            },
        }
    }
}

impl CodexAdapter {
    /// The member that discovery finds in a file.
    pub fn discover_member(file: &FoundFile, names: &ThreadNames) -> (r: Option<DiscoveredMember>)
        ensures
            r.deep_view() == discovered(*file, names.entries()),
    {
        let jsonl: bool = match extension(file.name.as_str()) {
            Some(e) => same(e.as_str(), "jsonl"),
            None => false,
        };
        if !jsonl || !starts_with(file.name.as_str(), "rollout-") {
            return None;
        }
        match detect_format(&file.head) {
            Some(Agent::Codex) => {},
            _ => {
                return None;
            },
        }
        match CodexAdapter::parse_member(file) {
            Ok(m) => {
                let mut m = m;
                if m.kind.is_logical_root() {
                    m.native_title = names.title_for(
                        m.source_member_id.as_str(),
                        &m.first_user_text,
                    );
                }
                Some(m)
            },
            Err(_) => None,
        }
    }
}

// ---------------------------------------------------------------------------
// Lines
// ---------------------------------------------------------------------------

/// The lines of a rollout; those of a root speak, those of any other member only count.
pub struct CodexLines {
    pub is_root: bool,
}

/// What a line of a rollout contributes.
pub open spec fn line_of(v: Tree, is_root: bool) -> Option<Line> {
    let payload = v.field_or_null("payload"@);
    let kind = payload.text_at("type"@);
    let text = prose(payload.field_or_null("content"@), Blocks::Any);
    let id = first_of(v.text_at("id"@), payload.text_at("id"@));
    if v.text_at("type"@) == Some("response_item"@) {
        if kind == Some("message"@) {
            if blank(text) || !is_root {
                None
            } else if payload.text_at("role"@) == Some("user"@) && !injected(text) {
                Some(spoken(message_of(id, SessionMessageRole::User, text)))
            } else if payload.text_at("role"@) == Some("assistant"@) {
                Some(spoken(message_of(id, SessionMessageRole::Assistant, text)))
            } else {
                None
            }
        } else if kind == Some("agent_message"@) {
            if blank(text) {
                None
            } else {
                Some(counted(one_side_activity()))
            }
        } else if kind == Some("function_call"@) || kind == Some("custom_tool_call"@) {
            Some(counted(one_tool_call()))
        } else {
            None
        }
    } else if v.text_at("type"@) == Some("event_msg"@) {
        match kind {
            Some(k) if has_text(k, "compact"@) => Some(counted(one_compaction())),
            _ => None,
        }
    } else {
        None
    }
}

/// What a line of a rollout contributes.
pub fn parse_line(v: &Json, is_root: bool) -> (r: Option<ParsedLine>)
    ensures
        r.deep_view() == line_of(v.tree(), is_root),
{
    let null = Json::Null;
    let payload: &Json = match v.get("payload") {
        Some(p) => p,
        None => &null,
    };
    if v.text_is("type", "response_item") {
        let text = prose_of(payload.get("content"), Blocks::Any);
        if payload.text_is("type", "message") {
            if is_blank(text.as_str()) || !is_root {
                return None;
            }
            let id = first_text(v.string_at("id"), payload.string_at("id"));
            if payload.text_is("role", "user") && !is_injected_preamble(text.as_str()) {
                Some(ParsedLine::message_only(parsed_message(id, SessionMessageRole::User, text)))
            } else if payload.text_is("role", "assistant") {
                Some(
                    ParsedLine::message_only(
                        parsed_message(id, SessionMessageRole::Assistant, text),
                    ),
                )
            } else {
                None
            }
        } else if payload.text_is("type", "agent_message") {
            if is_blank(text.as_str()) {
                return None;
            }
            Some(ParsedLine::observation_only(observed(0, 0, 1)))
        } else if payload.text_is("type", "function_call") || payload.text_is(
            "type",
            "custom_tool_call",
        ) {
            Some(ParsedLine::observation_only(observed(1, 0, 0)))
        } else {
            None
        }
    } else if v.text_is("type", "event_msg") {
        let compact: bool = match payload.text_at("type") {
            Some(k) => contains(k, "compact"),
            None => false,
        };
        if compact {
            Some(ParsedLine::observation_only(observed(0, 1, 0)))
        } else {
            None
        }
    } else {
        None
    }
}

impl LineFormat for CodexLines {
    open spec fn reading(&self, idx: int, v: Tree, state: Provenance) -> (
        Option<Line>,
        Provenance,
    ) {
        (line_of(v, self.is_root), state)
    }

    fn read_line(&self, idx: usize, v: &Json, state: &mut ProvenanceState) -> (r: Option<
        ParsedLine,
    >) {
        parse_line(v, self.is_root)
    }
}

impl CodexAdapter {
    /// Reads what a rollout holds beyond its cursor.
    pub fn read_member_delta(
        relation: SessionMemberRelation,
        file: &SourceFile,
        cursor: &SessionMemberCursor,
    ) -> (r: MemberReadDelta)
        requires
            cursor.generation < i64::MAX,
        ensures
            r.deep_view() == delta_of(
                CodexLines { is_root: relation is Root },
                *file,
                *cursor,
                StatsCapabilities {
                    tool_calls: true,
                    tool_errors: false,
                    compactions: true,
                    side_activity: true,
                },
                Provenance::unknown(),
            ),
    {
        let lines = CodexLines { is_root: matches!(relation, SessionMemberRelation::Root) };
        read_jsonl_delta(
            file,
            cursor,
            StatsCapabilities::tool_compaction_and_side_activity(),
            &lines,
        )
    }
}

// ---------------------------------------------------------------------------
// Commands
// ---------------------------------------------------------------------------

/// The overrides in Codex's spelling. Codex has no way to choose a provider.
pub open spec fn runtime(opts: ExecOptions) -> Seq<Seq<char>> {
    flag("-m"@, opts.model.deep_view()) + flag(
        "-c"@,
        match opts.effort.deep_view() {
            Some(e) => Some("model_reasoning_effort=\""@ + e + "\""@),
            None => None,
        },
    )
}

fn add_runtime(args: &mut Vec<String>, opts: &ExecOptions)
    ensures
        texts(final(args)@) == texts(old(args)@) + runtime(*opts),
{
    let ghost before = texts(args@);
    add_flag(args, "-m", &opts.model);
    let effort: Option<String> = match &opts.effort {
        Some(e) => {
            let mut s: String = "model_reasoning_effort=\"".to_owned();
            s.append(e.as_str());
            s.append("\"");
            Some(s)
        },
        None => None,
    };
    add_flag(args, "-c", &effort);
    assert(texts(args@) =~= before + runtime(*opts));
}

impl CodexAdapter {
    /// The command line of a new session. `context` is the context to start with, literally.
    pub fn build_new_command(
        install: &AgentInstallation,
        opts: &ExecOptions,
        context: &Option<String>,
        cwd: &Option<String>,
    ) -> (r: AgentCommand)
        ensures
            r.deep_view() == (CommandLine {
                program: install.executable_path@,
                args: runtime(*opts) + argument(context.deep_view()),
                cwd: cwd.deep_view(),
            }),
    {
        let mut args: Vec<String> = Vec::new();
        add_runtime(&mut args, opts);
        add_argument(&mut args, context);
        assert(texts(args@) =~= runtime(*opts) + argument(context.deep_view()));
        AgentCommand { program: install.executable_path.clone(), args, cwd: copy_text(cwd) }
    }

    /// The command line that continues a session.
    pub fn build_resume_command(
        install: &AgentInstallation,
        opts: &ExecOptions,
        agent_session_id: &str,
        context: &Option<String>,
        cwd: &Option<String>,
    ) -> (r: AgentCommand)
        ensures
            r.deep_view() == (CommandLine {
                program: install.executable_path@,
                args: seq!["resume"@] + runtime(*opts) + seq![agent_session_id@] + argument(
                    context.deep_view(),
                ),
                cwd: cwd.deep_view(),
            }),
    {
        let mut args: Vec<String> = Vec::new();
        add_word(&mut args, "resume");
        add_runtime(&mut args, opts);
        add_word(&mut args, agent_session_id);
        add_argument(&mut args, context);
        assert(texts(args@) =~= seq!["resume"@] + runtime(*opts) + seq![agent_session_id@]
            + argument(context.deep_view()));
        AgentCommand { program: install.executable_path.clone(), args, cwd: copy_text(cwd) }
    }

    /// The command line of one answer without a session. It never touches a repository.
    pub fn build_exec_command(install: &AgentInstallation, opts: &ExecOptions, prompt: &str) -> (r:
        AgentCommand)
        ensures
            r.deep_view() == (CommandLine {
                program: install.executable_path@,
                args: seq!["exec"@, "-s"@, "read-only"@, "--skip-git-repo-check"@] + runtime(*opts)
                    + seq![prompt@],
                cwd: None,
            }),
    {
        let mut args: Vec<String> = Vec::new();
        add_word(&mut args, "exec");
        add_word(&mut args, "-s");
        add_word(&mut args, "read-only");
        add_word(&mut args, "--skip-git-repo-check");
        assert(texts(args@) =~= seq!["exec"@, "-s"@, "read-only"@, "--skip-git-repo-check"@]);
        add_runtime(&mut args, opts);
        add_word(&mut args, prompt);
        assert(texts(args@) =~= seq!["exec"@, "-s"@, "read-only"@, "--skip-git-repo-check"@]
            + runtime(*opts) + seq![prompt@]);
        AgentCommand { program: install.executable_path.clone(), args, cwd: None }
    }
}

// ---------------------------------------------------------------------------
// Laws
// ---------------------------------------------------------------------------

/// Overrides that are left to the agent add nothing to its command line.
pub proof fn defaults_add_no_argument(opts: ExecOptions)
    requires
        opts.plain(),
    ensures
        runtime(opts).len() == 0,
{
}

/// A member that is not a root never speaks.
pub proof fn only_a_root_speaks(v: Tree)
    ensures
        line_of(v, false) matches Some(l) ==> l.message is None,
{
}

/// A rollout that Codex wrote itself carries no title of any kind.
pub proof fn an_internal_thread_has_no_title(
    file: FoundFile,
    names: Seq<(Seq<char>, Seq<char>)>,
)
    ensures
        discovered(file, names) matches Some(m) ==> !m.kind.rooted() ==> {
            &&& m.native_title is None
            &&& m.first_user_text is None
            &&& m.first_agent_text is None
        },
{
}

/// A page that continues another rollout is a session of its own, and never its own parent
/// through the rollout that it continues.
pub proof fn a_continued_page_is_its_own_session(
    file: FoundFile,
    names: Seq<(Seq<char>, Seq<char>)>,
)
    requires
        forked_name(file.name@),
    ensures
        discovered(file, names) matches Some(m) ==> {
            &&& m.kind is ForkRoot
            &&& thread_id(file.name@) is Some ==> m.source_member_id == thread_id(file.name@)->0
            &&& RolloutFacts::of(documents(file.data@)).parent is None
                ==> m.parent_source_member_id != Some(m.source_member_id)
        },
{
}

// ---------------------------------------------------------------------------
// Discovery among files
// ---------------------------------------------------------------------------

impl MemberFinder for ThreadNames {
    open spec fn member(&self, file: FoundFile) -> Option<Member> {
        discovered(file, self.entries())
    }

    fn find(&self, file: &FoundFile) -> Option<DiscoveredMember> {
        CodexAdapter::discover_member(file, self)
    }
}

impl CodexAdapter {
    /// The members among files, but for the files at the paths that did not change. `names` are
    /// the names of the threads.
    pub fn discover_members_in(
        files: &Vec<FoundFile>,
        names: &ThreadNames,
        unchanged: &Vec<String>,
    ) -> (r: Vec<DiscoveredMember>)
        ensures
            r.deep_view() == members_in(*names, files@, texts(unchanged@)),
    {
        find_members(names, files, unchanged)
    }
}

/// Whatever the files hold, no member of another agent is found among them.
pub proof fn no_other_agent_is_found(
    names: ThreadNames,
    files: Seq<FoundFile>,
    unchanged: Seq<Seq<char>>,
)
    ensures
        forall|k: int|
            0 <= k < members_in(names, files, unchanged).len() ==> (#[trigger] members_in(
                names,
                files,
                unchanged,
            )[k]).agent == Agent::Codex,
{
    members_are_of_one_agent(names, files, unchanged, Agent::Codex);
}

} // verus!
