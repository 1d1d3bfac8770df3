//! DeepSeek Harness: `sessions/<encoded-cwd>/<id>/session.v2.jsonl.zstd`.
//!
//! A transcript is compressed and grows by whole frames; a frame that is torn ends what can be
//! read for now. It is read whole each time: every record carries its writer's own number, so a
//! record that is read again is known again. The first record is the header; a header that names
//! a parent session makes the transcript a child. The harness writes context of its own in the
//! user's name, which is no conversation. Nothing is launched.
use crate::adapters::content::{
    block_texts, first_of, observed, one_compaction, one_side_activity, one_tool_call, read_records,
    records_in, solid_string_at, solid_text_at, texts_of_blocks, Blocks,
};
use crate::adapters::reader::{
    replay_cursor_update, replayed_source, stats_of, stats_update_from, Delta, MemberReadDelta,
    Provenance, SourceFile, StatsCapabilities,
};
use crate::adapters::{
    counted, message_of, parsed_message, shortened, spoken, truncate_text, AgentCommand,
    DiscoveredMember, DiscoveredMemberKind, Line, Member, ParsedLine,
};
use crate::bytes::{decode_lossy, decode_zstd, lossy_text, zstd_decoded};
use crate::domain::{
    copy_text, Agent, MemberObservation, Message, ParsedSessionMessage, SessionMemberCursor,
    SessionMemberRelation, SessionMessageRole,
};
use crate::error::{other, AppError, Fault};
use crate::json::{copy_json, named_trees, object_tree, parsed, trees, Json, Tree};
use crate::paths::{child_of, child_path, FoundDir, FoundFile};
use crate::text::{
    blank, is_blank, is_listed, join, joined, same, signed_decimal, signed_decimal_of, starts,
    starts_with, texts,
};
use crate::time::{ms_epoch_to_rfc3339, rfc3339_of_millis};
use vstd::prelude::*;
use vstd::slice::slice_subrange;

verus! {

/// The adapter for the DeepSeek Harness.
pub struct DshAdapter;

// ---------------------------------------------------------------------------
// Files
// ---------------------------------------------------------------------------

/// The generation of a transcript by its file name.
pub open spec fn generation_named(name: Seq<char>) -> Option<u8> {
    if name == "session.v2.jsonl.zstd"@ {
        Some(2)
    } else if name == "session.v1.jsonl.zstd"@ {
        Some(1)
    } else if name == "session.jsonl.zstd"@ {
        Some(0)
    } else {
        None
    }
}

/// The generation of a transcript by its file name.
pub fn generation_of(name: &str) -> (r: Option<u8>)
    ensures
        r == generation_named(name@),
{
    if same(name, "session.v2.jsonl.zstd") {
        Some(2)
    } else if same(name, "session.v1.jsonl.zstd") {
        Some(1)
    } else if same(name, "session.jsonl.zstd") {
        Some(0)
    } else {
        None
    }
}

/// File `i` of a directory is its transcript: no other is of a later generation, and none before
/// it is of the same.
pub open spec fn is_newest(names: Seq<Seq<char>>, i: int) -> bool {
    &&& 0 <= i < names.len()
    &&& generation_named(names[i]) is Some
    &&& forall|j: int|
        0 <= j < names.len() && j != i ==> match generation_named(#[trigger] names[j]) {
            Some(g) => g < generation_named(names[i])->0 || (j > i && g == generation_named(
                names[i],
            )->0),
            None => true,
        }
}

/// Which file of a directory is its transcript. A session that was migrated leaves its older
/// transcripts beside the newest.
pub fn newest_transcript(names: &Vec<String>) -> (r: Option<usize>)
    ensures
        match r {
            Some(i) => is_newest(texts(names@), i as int),
            None => forall|j: int|
                0 <= j < names@.len() ==> generation_named(#[trigger] texts(names@)[j]) is None,
        },
{
    let ghost all = texts(names@);
    let mut best: Option<(u8, usize)> = None;
    let mut i: usize = 0;
    while i < names.len()
        invariant
            i <= names@.len(),
            all == texts(names@),
            match best {
                Some((g, k)) => {
                    &&& k < i
                    &&& generation_named(all[k as int]) == Some(g)
                    &&& forall|j: int|
                        0 <= j < i && j != k ==> match generation_named(#[trigger] all[j]) {
                            Some(h) => h < g || (j > k && h == g),
                            None => true,
                        }
                },
                None => forall|j: int|
                    0 <= j < i ==> generation_named(#[trigger] all[j]) is None,
            },
        decreases names@.len() - i,
    {
        assert(all[i as int] == names@[i as int]@);
        match generation_of(names[i].as_str()) {
            Some(g) => {
                let better: bool = match best {
                    Some((h, _)) => g > h,
                    None => true,
                };
                if better {
                    best = Some((g, i));
                }
            },
            None => {},
        }
        i = i + 1;
    }
    match best {
        Some((_, k)) => Some(k),
        None => None,
    }
}

// ---------------------------------------------------------------------------
// Lines
// ---------------------------------------------------------------------------

/// The index of the first line end, or the length.
pub open spec fn line_end(data: Seq<u8>) -> nat
    decreases data.len(),
{
    if data.len() == 0 || data[0] == 10 {
        0
    } else {
        1 + line_end(data.drop_first())
    }
}

/// A line ends within the bytes.
pub proof fn line_end_bound(data: Seq<u8>)
    ensures
        line_end(data) <= data.len(),
    decreases data.len(),
{
    if data.len() > 0 && data[0] != 10 {
        line_end_bound(data.drop_first());
    }
}

/// The lines of some bytes, each decoded by itself.
pub open spec fn decoded_lines(data: Seq<u8>) -> Seq<Seq<char>>
    decreases data.len(),
    via decoded_lines_shrink
{
    if data.len() == 0 {
        Seq::empty()
    } else if line_end(data) == data.len() {
        seq![lossy_text(data)]
    } else {
        seq![lossy_text(data.take(line_end(data) as int))] + decoded_lines(
            data.skip(line_end(data) as int + 1),
        )
    }
}

#[via_fn]
proof fn decoded_lines_shrink(data: Seq<u8>) {
    line_end_bound(data);
}

/// The lines of a transcript, as far as it can be decompressed.
pub fn scan_lines(raw: &[u8]) -> (r: Vec<String>)
    ensures
        texts(r@) == decoded_lines(zstd_decoded(raw@)),
{
    let data = decode_zstd(raw);
    let mut out: Vec<String> = Vec::new();
    let mut i: usize = 0;
    assert(data@.skip(0) =~= data@);
    assert(texts(out@) + decoded_lines(data@) =~= decoded_lines(data@));
    while i < data.len()
        invariant
            i <= data@.len(),
            data@ == zstd_decoded(raw@),
            texts(out@) + decoded_lines(data@.skip(i as int)) == decoded_lines(data@),
        decreases data@.len() - i,
    {
        let ghost rest = data@.skip(i as int);
        let mut n: usize = i;
        while n < data.len() && data[n] != 10
            invariant
                i <= n <= data@.len(),
                rest == data@.skip(i as int),
                line_end(rest) == (n - i) + line_end(data@.skip(n as int)),
            decreases data@.len() - n,
        {
            assert(data@.skip(n as int).drop_first() =~= data@.skip(n + 1));
            n = n + 1;
        }
        let line = decode_lossy(slice_subrange(data.as_slice(), i, n));
        assert(data@.subrange(i as int, n as int) =~= rest.take(n - i));
        let ghost before = texts(out@);
        out.push(line);
        assert(texts(out@) =~= before.push(line@));
        if n == data.len() {
            assert(rest.take(n - i) =~= rest);
            assert(before + seq![line@] =~= texts(out@));
            return out;
        }
        assert(rest.skip(n - i + 1) =~= data@.skip(n + 1));
        assert(before + (seq![line@] + decoded_lines(data@.skip(n + 1))) =~= texts(out@)
            + decoded_lines(data@.skip(n + 1)));
        i = n + 1;
    }
    assert(data@.skip(i as int) =~= Seq::<u8>::empty());
    assert(texts(out@) + Seq::<Seq<char>>::empty() =~= texts(out@));
    out
}

// ---------------------------------------------------------------------------
// Records
// ---------------------------------------------------------------------------

/// The header of a transcript: a session record with a creation time and an id.
pub open spec fn session_header(v: Tree) -> bool {
    &&& v.text_at("type"@) == Some("session"@)
    &&& v.field("createdAt"@) matches Some(c) && c is Number
    &&& v.text_at("id"@) is Some
}

/// Whether a record is the header of a transcript.
pub fn is_session_header(v: &Json) -> (r: bool)
    ensures
        r == session_header(v.tree()),
{
    let created: bool = match v.get("createdAt") {
        Some(c) => matches!(c, Json::Number(_)),
        None => false,
    };
    v.text_is("type", "session") && created && v.text_at("id").is_some()
}

/// The prose of content blocks. Anything but a list holds none.
pub open spec fn block_prose(content: Option<Tree>) -> Seq<char> {
    match content {
        Some(Tree::List(blocks)) => joined(block_texts(blocks, Blocks::Text), "\n"@),
        _ => Seq::empty(),
    }
}

/// The prose of content blocks.
pub fn text_blocks(content: Option<&Json>) -> (r: String)
    ensures
        r@ == block_prose(
            match content {
                Some(c) => Some(c.tree()),
                None => None,
            },
        ),
{
    match content {
        Some(c) => match c.as_array() {
            Some(blocks) => join(&texts_of_blocks(blocks, Blocks::Text), "\n"),
            None => String::new(),
        },
        None => String::new(),
    }
}

/// Context that the harness wrote in the user's name.
pub open spec fn machine_context(text: Seq<char>) -> bool {
    starts(text, "<"@) || starts(text, "Current runtime context"@)
}

/// Whether a text is context that the harness wrote in the user's name.
pub fn is_machine_context(text: &str) -> (r: bool)
    ensures
        r == machine_context(text@),
{
    starts_with(text, "<") || starts_with(text, "Current runtime context")
}

/// The task that a parent session handed down: no turn of a human, and no title.
pub open spec fn task_envelope(text: Seq<char>) -> bool {
    starts(text, "## Task context"@)
}

/// Whether a text is the task that a parent session handed down.
pub fn is_task_envelope(text: &str) -> (r: bool)
    ensures
        r == task_envelope(text@),
{
    starts_with(text, "## Task context")
}

/// What a user record says.
pub open spec fn user_said(v: Tree) -> Seq<char> {
    block_prose(v.inner("data"@, "content"@))
}

/// What an assistant record says.
pub open spec fn assistant_said(v: Tree) -> Seq<char> {
    block_prose(
        match v.inner("data"@, "message"@) {
            Some(m) => m.field("content"@),
            None => None,
        },
    )
}

/// The session that sent a user record, where another session did.
pub open spec fn sender(v: Tree) -> Option<Tree> {
    match v.inner("data"@, "source"@) {
        Some(s) => s.field("senderSessionId"@),
        None => None,
    }
}

/// Another session sent the record.
pub open spec fn relayed(v: Tree) -> bool {
    sender(v) matches Some(Tree::Text(s)) && s.len() > 0
}

/// The provider and the model that an assistant record names as its source.
pub open spec fn generated_by(v: Tree) -> (Option<Seq<char>>, Option<Seq<char>>) {
    match v.inner("data"@, "message"@) {
        Some(m) => match m.field("source"@) {
            Some(s) if s.text_at("kind"@) == Some("model"@) => (
                s.text_at("provider"@),
                s.text_at("model"@),
            ),
            _ => (None, None),
        },
        None => (None, None),
    }
}

fn prose_of_user(v: &Json) -> (r: String)
    ensures
        r@ == user_said(v.tree()),
{
    text_blocks(v.inner("data", "content"))
}

fn prose_of_assistant(v: &Json) -> (r: String)
    ensures
        r@ == assistant_said(v.tree()),
{
    match v.inner("data", "message") {
        Some(m) => text_blocks(m.get("content")),
        None => String::new(),
    }
}

fn sender_of(v: &Json) -> (r: Option<&Json>)
    ensures
        match r {
            Some(s) => sender(v.tree()) == Some(s.tree()),
            None => sender(v.tree()) is None,
        },
{
    match v.inner("data", "source") {
        Some(s) => s.get("senderSessionId"),
        None => None,
    }
}

// ---------------------------------------------------------------------------
// Facts of a transcript
// ---------------------------------------------------------------------------

/// What the records of a transcript say about it.
pub struct Transcript {
    pub refused: bool,
    pub header: Option<Json>,
    pub native_title: Option<String>,
    pub first_user_text: Option<String>,
    pub first_agent_text: Option<String>,
}

/// What the records of a transcript say about it, as a mathematical value.
pub struct TranscriptFacts {
    pub refused: bool,
    pub header: Option<Tree>,
    pub native_title: Option<Seq<char>>,
    pub first_user_text: Option<Seq<char>>,
    pub first_agent_text: Option<Seq<char>>,
}

/// The tree of an optional document.
pub open spec fn tree_where(j: Option<Json>) -> Option<Tree> {
    match j {
        Some(v) => Some(v.tree()),
        None => None,
    }
}

impl DeepView for Transcript {
    type V = TranscriptFacts;

    open spec fn deep_view(&self) -> TranscriptFacts {
        TranscriptFacts {
            refused: self.refused,
            header: tree_where(self.header),
            native_title: self.native_title.deep_view(),
            first_user_text: self.first_user_text.deep_view(),
            first_agent_text: self.first_agent_text.deep_view(),
        }
    }
}

/// The name that a title record gives the session. A name that the harness cut out of the first
/// message is none.
pub open spec fn title_in(v: Tree) -> Option<Seq<char>> {
    let fallback = match v.inner("data"@, "source"@) {
        Some(s) => s.text_at("kind"@) == Some("fallback"@),
        None => false,
    };
    match v.inner("data"@, "title"@) {
        Some(Tree::Text(t)) if !fallback && !blank(t) => Some(t),
        _ => None,
    }
}

fn title_in_record(v: &Json) -> (r: Option<String>)
    ensures
        r.deep_view() == title_in(v.tree()),
{
    let fallback: bool = match v.inner("data", "source") {
        Some(s) => s.text_is("kind", "fallback"),
        None => false,
    };
    if fallback {
        return None;
    }
    match v.inner("data", "title") {
        Some(t) => match t.as_str() {
            Some(s) => {
                if is_blank(s) {
                    None
                } else {
                    Some(s.to_owned())
                }
            },
            None => None,
        },
        None => None,
    }
}

impl TranscriptFacts {
    /// Nothing known yet.
    pub open spec fn none() -> TranscriptFacts {
        TranscriptFacts {
            refused: false,
            header: None,
            native_title: None,
            first_user_text: None,
            first_agent_text: None,
        }
    }

    /// After one more record. The first record must be the header. Of several names the last
    /// one stands.
    pub open spec fn after(self, v: Tree) -> TranscriptFacts {
        if self.refused {
            self
        } else if self.header is None {
            if session_header(v) {
                TranscriptFacts { header: Some(v), ..self }
            } else {
                TranscriptFacts { refused: true, ..self }
            }
        } else if v.text_at("type"@) == Some("user/message"@) {
            let text = user_said(v);
            TranscriptFacts {
                first_user_text: first_of(
                    self.first_user_text,
                    if !blank(text) && !machine_context(text) && !task_envelope(text) && sender(v)
                        is None {
                        Some(shortened(text, 400))
                    } else {
                        None
                    },
                ),
                ..self
            }
        } else if v.text_at("type"@) == Some("assistant/message"@) {
            let text = assistant_said(v);
            TranscriptFacts {
                first_agent_text: first_of(
                    self.first_agent_text,
                    if !blank(text) {
                        Some(shortened(text, 400))
                    } else {
                        None
                    },
                ),
                ..self
            }
        } else if v.text_at("type"@) == Some("session/title"@) {
            TranscriptFacts { native_title: first_of(title_in(v), self.native_title), ..self }
        } else {
            self
        }
    }

    /// What the records of a transcript say together.
    pub open spec fn of(records: Seq<Tree>) -> TranscriptFacts
        decreases records.len(),
    {
        if records.len() == 0 {
            TranscriptFacts::none()
        } else {
            TranscriptFacts::of(records.drop_last()).after(records.last())
        }
    }
}

impl Transcript {
    fn note(&mut self, v: &Json)
        ensures
            final(self).deep_view() == old(self).deep_view().after(v.tree()),
    {
        if self.refused {
            return;
        }
        if self.header.is_none() {
            if is_session_header(v) {
                self.header = Some(copy_json(v));
            } else {
                self.refused = true;
            }
            return;
        }
        if v.text_is("type", "user/message") {
            if self.first_user_text.is_none() {
                let text = prose_of_user(v);
                if !is_blank(text.as_str()) && !is_machine_context(text.as_str())
                    && !is_task_envelope(text.as_str()) && sender_of(v).is_none() {
                    self.first_user_text = Some(truncate_text(text.as_str(), 400));
                }
            }
        } else if v.text_is("type", "assistant/message") {
            if self.first_agent_text.is_none() {
                let text = prose_of_assistant(v);
                if !is_blank(text.as_str()) {
                    self.first_agent_text = Some(truncate_text(text.as_str(), 400));
                }
            }
        } else if v.text_is("type", "session/title") {
            match title_in_record(v) {
                Some(t) => {
                    self.native_title = Some(t);
                },
                None => {},
            }
        }
    }
}

// ---------------------------------------------------------------------------
// Discovery
// ---------------------------------------------------------------------------

/// What the header says of where the session came from.
pub open spec fn origin_metadata(header: Tree) -> Tree {
    Tree::Object(
        seq![
            (
                "delegation_depth"@,
                match header.whole_at("delegationDepth"@) {
                    Some(n) => Tree::Number(Some(n)),
                    None => Tree::Null,
                },
            ),
            (
                "origin"@,
                match header.text_at("origin"@) {
                    Some(s) => Tree::Text(s),
                    None => Tree::Null,
                },
            ),
        ],
    )
}

/// The member that a transcript with a header is. A child carries no title.
pub open spec fn member_of(facts: TranscriptFacts, header: Tree, file: FoundFile) -> Member {
    let parent = solid_text_at(header, "parentSession"@);
    Member {
        agent: Agent::Dsh,
        source_member_id: header.text_at("id"@)->0,
        kind: if parent is Some {
            DiscoveredMemberKind::Child
        } else {
            DiscoveredMemberKind::Root
        },
        parent_source_member_id: parent,
        root_hint: parent,
        source_kind: "dsh_zstd_transcript"@,
        source_path: file.path@,
        cwd: solid_text_at(header, "cwd"@),
        started_at: match header.whole_at("createdAt"@) {
            Some(ms) => rfc3339_of_millis(ms),
            None => None,
        },
        last_activity_at: file.modified.deep_view(),
        native_title: if parent is Some {
            None
        } else {
            facts.native_title
        },
        first_user_text: if parent is Some {
            None
        } else {
            facts.first_user_text
        },
        first_agent_text: if parent is Some {
            None
        } else {
            facts.first_agent_text
        },
        metadata: origin_metadata(header),
    }
}

/// The member that discovery finds in a file.
pub open spec fn discovered(file: FoundFile) -> Option<Member> {
    member_with(file, records_in(decoded_lines(zstd_decoded(file.data@))))
}

/// The member that a transcript of these records is; none where they do not begin with a header.
pub open spec fn member_with(file: FoundFile, records: Seq<Tree>) -> Option<Member> {
    let facts = TranscriptFacts::of(records);
    match facts.header {
        Some(header) => Some(member_of(facts, header, file)),
        None => None,
    }
}

/// A header that was noted is a header.
proof fn a_noted_header_is_one(records: Seq<Tree>)
    ensures
        TranscriptFacts::of(records).header matches Some(h) ==> session_header(h),
    decreases records.len(),
{
    if records.len() > 0 {
        a_noted_header_is_one(records.drop_last());
    }
}

fn metadata_of_origin(header: &Json) -> (r: Json)
    ensures
        r.tree() == origin_metadata(header.tree()),
{
    broadcast use object_tree;

    let depth: Json = match header.get("delegationDepth") {
        Some(d) => match d.as_i64() {
            Some(n) => Json::Number(Some(n)),
            None => Json::Null,
        },
        None => Json::Null,
    };
    let origin: Json = match header.string_at("origin") {
        Some(s) => Json::Text(s),
        None => Json::Null,
    };
    let mut fields: Vec<(String, Json)> = Vec::new();
    fields.push(("delegation_depth".to_owned(), depth));
    fields.push(("origin".to_owned(), origin));
    assert(named_trees(fields@) =~= origin_metadata(header.tree())->Object_0);
    Json::Object(fields)
}

impl DshAdapter {
    /// The member that a transcript is.
    pub fn parse_member(file: &FoundFile) -> (r: Option<DiscoveredMember>)
        ensures
            r.deep_view() == discovered(*file),
    {
        DshAdapter::member_from(file, &read_records(&scan_lines(file.data.as_slice())))
    }

    /// The member that a transcript of these records is.
    pub fn member_from(file: &FoundFile, records: &Vec<Json>) -> (r: Option<DiscoveredMember>)
        ensures
            r.deep_view() == member_with(*file, trees(records@)),
    {
        let ghost all = trees(records@);
        let mut facts = Transcript {
            refused: false,
            header: None,
            native_title: None,
            first_user_text: None,
            first_agent_text: None,
        };
        let mut i: usize = 0;
        assert(all.take(0) =~= Seq::<Tree>::empty());
        while i < records.len()
            invariant
                i <= records@.len(),
                all == trees(records@),
                facts.deep_view() == TranscriptFacts::of(all.take(i as int)),
            decreases records@.len() - i,
        {
            assert(all.take(i + 1).drop_last() =~= all.take(i as int));
            assert(all.take(i + 1).last() == records@[i as int].tree());
            facts.note(&records[i]);
            i = i + 1;
        }
        assert(all.take(i as int) =~= all);
        proof {
            a_noted_header_is_one(all);
        }
        let ghost known = facts.deep_view();
        let header: Json = match facts.header {
            Some(header) => header,
            None => {
                return None;
            },
        };
        let id: String = match header.string_at("id") {
            Some(id) => id,
            None => {
                return None;
            },
        };
        let parent = solid_string_at(&header, "parentSession");
        let child: bool = parent.is_some();
        let started_at: Option<String> = match header.get("createdAt") {
            Some(c) => match c.as_i64() {
                Some(ms) => ms_epoch_to_rfc3339(ms),
                None => None,
            },
            None => None,
        };
        Some(
            DiscoveredMember {
                agent: Agent::Dsh,
                source_member_id: id,
                kind: if child {
                    DiscoveredMemberKind::Child
                } else {
                    DiscoveredMemberKind::Root
                },
                parent_source_member_id: copy_text(&parent),
                root_hint: parent,
                source_kind: "dsh_zstd_transcript".to_owned(),
                source_path: file.path.clone(),
                cwd: solid_string_at(&header, "cwd"),
                started_at,
                last_activity_at: copy_text(&file.modified),
                native_title: if child {
                    None
                } else {
                    facts.native_title
                },
                first_user_text: if child {
                    None
                } else {
                    facts.first_user_text
                },
                first_agent_text: if child {
                    None
                } else {
                    facts.first_agent_text
                },
                metadata: metadata_of_origin(&header),
            },
        )
    }
}

// ---------------------------------------------------------------------------
// Reading
// ---------------------------------------------------------------------------

/// The number that a record's writer gave it.
pub open spec fn number_of(v: Tree) -> Option<Seq<char>> {
    match v.whole_at("seq"@) {
        Some(n) => Some(signed_decimal(n as int)),
        None => None,
    }
}

/// What a record contributes.
pub open spec fn line_of(v: Tree, is_root: bool) -> Option<Line> {
    match v.text_at("type"@) {
        None => None,
        Some(kind) => if kind == "user/message"@ {
            let text = user_said(v);
            if blank(text) || machine_context(text) {
                None
            } else if relayed(v) {
                Some(counted(one_side_activity()))
            } else if !is_root {
                Some(counted(MemberObservation::nothing()))
            } else {
                Some(spoken(message_of(number_of(v), SessionMessageRole::User, text)))
            }
        } else if kind == "assistant/message"@ {
            let text = assistant_said(v);
            if blank(text) {
                None
            } else if !is_root {
                Some(counted(MemberObservation::nothing()))
            } else {
                Some(
                    spoken(
                        Message {
                            provider: generated_by(v).0,
                            model: generated_by(v).1,
                            ..message_of(number_of(v), SessionMessageRole::Assistant, text)
                        },
                    ),
                )
            }
        } else if starts(kind, "compaction/"@) {
            Some(counted(one_compaction()))
        } else if kind == "tool/call"@ || kind == "tool/result"@ {
            Some(counted(one_tool_call()))
        } else {
            None
        },
    }
}

/// What a record contributes.
pub fn parsed_line(v: &Json, is_root: bool) -> (r: Option<ParsedLine>)
    ensures
        r.deep_view() == line_of(v.tree(), is_root),
{
    let kind: &str = match v.text_at("type") {
        Some(k) => k,
        None => {
            return None;
        },
    };
    let number: Option<String> = match v.get("seq") {
        Some(n) => match n.as_i64() {
            Some(n) => Some(signed_decimal_of(n)),
            None => None,
        },
        None => None,
    };
    if same(kind, "user/message") {
        let text = prose_of_user(v);
        if is_blank(text.as_str()) || is_machine_context(text.as_str()) {
            return None;
        }
        let relay: bool = match sender_of(v) {
            Some(s) => match s.as_str() {
                Some(id) => !id.is_empty(),
                None => false,
            },
            None => false,
        };
        if relay {
            return Some(ParsedLine::observation_only(observed(0, 0, 1)));
        }
        if !is_root {
            return Some(ParsedLine::observation_only(MemberObservation::default()));
        }
        Some(ParsedLine::message_only(parsed_message(number, SessionMessageRole::User, text)))
    } else if same(kind, "assistant/message") {
        let text = prose_of_assistant(v);
        if is_blank(text.as_str()) {
            return None;
        }
        if !is_root {
            return Some(ParsedLine::observation_only(MemberObservation::default()));
        }
        let (provider, model): (Option<String>, Option<String>) = match v.inner("data", "message") {
            Some(m) => match m.get("source") {
                Some(s) => {
                    if s.text_is("kind", "model") {
                        (s.string_at("provider"), s.string_at("model"))
                    } else {
                        (None, None)
                    }
                },
                None => (None, None),
            },
            None => (None, None),
        };
        Some(
            ParsedLine::message_only(
                parsed_message(number, SessionMessageRole::Assistant, text).with_provenance(
                    provider,
                    model,
                ),
            ),
        )
    } else if starts_with(kind, "compaction/") {
        Some(ParsedLine::observation_only(observed(0, 1, 0)))
    } else if same(kind, "tool/call") || same(kind, "tool/result") {
        Some(ParsedLine::observation_only(observed(1, 0, 0)))
    } else {
        None
    }
}

/// A message with its place and its time filled in where they were left open.
pub open spec fn placed(m: Message, v: Tree) -> Message {
    Message {
        source_position: if m.source_position.len() == 0 {
            "seq:"@ + (match m.source_message_id {
                Some(id) => id,
                None => Seq::empty(),
            })
        } else {
            m.source_position
        },
        ts: match m.ts {
            Some(ts) => Some(ts),
            None => match v.whole_at("time"@) {
                Some(ms) => rfc3339_of_millis(ms),
                None => None,
            },
        },
        ..m
    }
}

/// The messages and the counts of a transcript's records.
pub open spec fn read_of(records: Seq<Tree>, is_root: bool) -> (Seq<Message>, MemberObservation)
    decreases records.len(),
{
    if records.len() == 0 {
        (Seq::empty(), MemberObservation::nothing())
    } else {
        let before = read_of(records.drop_last(), is_root);
        match line_of(records.last(), is_root) {
            None => before,
            Some(l) => (
                match l.message {
                    Some(m) if !blank(m.content) => before.0.push(placed(m, records.last())),
                    _ => before.0,
                },
                before.1.plus(l.observation),
            ),
        }
    }
}

fn place(m: ParsedSessionMessage, v: &Json) -> (r: ParsedSessionMessage)
    ensures
        r.deep_view() == placed(m.deep_view(), v.tree()),
{
    let mut m = m;
    if m.ts.is_none() {
        m.ts =
        match v.get("time") {
            Some(t) => match t.as_i64() {
                Some(ms) => ms_epoch_to_rfc3339(ms),
                None => None,
            },
            None => None,
        };
    }
    if m.source_position.as_str().is_empty() {
        let mut position: String = "seq:".to_owned();
        match &m.source_message_id {
            Some(id) => {
                position.append(id.as_str());
            },
            None => {
                assert(position@ + Seq::<char>::empty() =~= position@);
            },
        }
        m.source_position = position;
    }
    m
}

impl DshAdapter {
    /// The messages and the counts of a transcript's records.
    pub fn read_all(records: &Vec<Json>, is_root: bool) -> (r: (
        Vec<ParsedSessionMessage>,
        MemberObservation,
    ))
        ensures
            (r.0.deep_view(), r.1) == read_of(trees(records@), is_root),
    {
        let ghost all = trees(records@);
        let mut messages: Vec<ParsedSessionMessage> = Vec::new();
        let mut observation = MemberObservation::default();
        let mut i: usize = 0;
        assert(all.take(0) =~= Seq::<Tree>::empty());
        assert(messages.deep_view() =~= Seq::<Message>::empty());
        while i < records.len()
            invariant
                i <= records@.len(),
                all == trees(records@),
                messages.deep_view() == read_of(all.take(i as int), is_root).0,
                observation == read_of(all.take(i as int), is_root).1,
            decreases records@.len() - i,
        {
            assert(all.take(i + 1).drop_last() =~= all.take(i as int));
            assert(all.take(i + 1).last() == records@[i as int].tree());
            match parsed_line(&records[i], is_root) {
                None => {},
                Some(p) => {
                    observation.add(&p.observation);
                    match p.message {
                        Some(m) => {
                            if !is_blank(m.content.as_str()) {
                                let ghost before = messages.deep_view();
                                let m = place(m, &records[i]);
                                messages.push(m);
                                assert(messages.deep_view() =~= before.push(m.deep_view()));
                            }
                        },
                        None => {},
                    }
                },
            }
            i = i + 1;
        }
        assert(all.take(i as int) =~= all);
        (messages, observation)
    }

    /// Reads a transcript: everything that it holds, each time.
    pub fn read_member_delta(
        relation: SessionMemberRelation,
        file: &SourceFile,
        cursor: &SessionMemberCursor,
    ) -> (r: MemberReadDelta)
        requires
            cursor.generation < i64::MAX,
        ensures
            ({
                let read = read_of(
                    records_in(decoded_lines(zstd_decoded(file.data@))),
                    relation is Root,
                );
                r.deep_view() == (Delta {
                    messages: read.0,
                    stats: stats_of(
                        read.1,
                        0,
                        StatsCapabilities {
                            tool_calls: true,
                            tool_errors: false,
                            compactions: true,
                            side_activity: true,
                        },
                    ),
                    source: Some(replayed_source(*file, *cursor)),
                    next_active: Provenance::unknown(),
                })
            }),
    {
        let is_root: bool = matches!(relation, SessionMemberRelation::Root);
        let records = read_records(&scan_lines(file.data.as_slice()));
        let (messages, observation) = DshAdapter::read_all(&records, is_root);
        let source = replay_cursor_update(file, cursor);
        MemberReadDelta {
            stats: stats_update_from(
                &observation,
                &source,
                StatsCapabilities::tool_compaction_and_side_activity(),
            ),
            messages,
            source: Some(source),
            next_active_provider: None,
            next_active_model: None,
        }
    }

    /// A new session cannot be launched.
    pub fn build_new_command() -> (r: Result<AgentCommand, AppError>)
        ensures
            r matches Err(e) && e.deep_view() == Fault::Other(
                "dsh 需要指定 profile，NoEnding 无法替用户选择"@,
            ),
    {
        Err(other("dsh 需要指定 profile，NoEnding 无法替用户选择"))
    }

    /// A session cannot be continued.
    pub fn build_resume_command() -> (r: Result<AgentCommand, AppError>)
        ensures
            r matches Err(e) && e.deep_view() == Fault::Other(
                "dsh 需要指定 profile，NoEnding 无法替用户选择"@,
            ),
    {
        Err(other("dsh 需要指定 profile，NoEnding 无法替用户选择"))
    }

    /// One answer cannot be asked for.
    pub fn build_exec_command() -> (r: Result<AgentCommand, AppError>)
        ensures
            r matches Err(e) && e.deep_view() == Fault::Other(
                "dsh 需要指定 profile，NoEnding 无法替用户选择"@,
            ),
    {
        Err(other("dsh 需要指定 profile，NoEnding 无法替用户选择"))
    }
}

// ---------------------------------------------------------------------------
// Laws
// ---------------------------------------------------------------------------

/// A member that is not a root never speaks.
pub proof fn only_a_root_speaks(v: Tree)
    ensures
        line_of(v, false) matches Some(l) ==> l.message is None,
{
}

/// A transcript with a parent is its child and carries no title; one without is a root.
pub proof fn a_parent_makes_an_untitled_child(file: FoundFile)
    ensures
        discovered(file) matches Some(m) ==> {
            &&& m.kind is Child <==> m.parent_source_member_id is Some
            &&& m.kind is Child ==> m.native_title is None && m.first_user_text is None
                && m.first_agent_text is None
        },
{
}

/// Reading more of a transcript only adds to what was read: the messages so far stay, in order.
pub proof fn later_lines_only_add(ls: Seq<Seq<char>>, more: Seq<Seq<char>>, is_root: bool)
    ensures
        read_of(records_in(ls), is_root).0.is_prefix_of(
            read_of(records_in(ls + more), is_root).0,
        ),
    decreases more.len(),
{
    if more.len() == 0 {
        assert(ls + more =~= ls);
    } else {
        later_lines_only_add(ls, more.drop_last(), is_root);
        assert((ls + more).drop_last() =~= ls + more.drop_last());
        let before = records_in(ls + more.drop_last());
        match parsed((ls + more).last()) {
            Some(v) => {
                assert(before.push(v).drop_last() =~= before);
            },
            None => {},
        }
    }
}

// ---------------------------------------------------------------------------
// Discovery among files
// ---------------------------------------------------------------------------

/// Where transcripts stand under a root: in its `sessions`, where it is not that directory
/// itself. The rest of the root is not looked at.
pub open spec fn session_root(root: FoundDir, dirs: Seq<Seq<char>>) -> Seq<char> {
    let sessions = child_of(root.path@, "sessions"@);
    if root.name@ != "sessions"@ && dirs.contains(sessions) {
        sessions
    } else {
        root.path@
    }
}

/// Where transcripts stand under roots. `dirs` are the directories that there are.
pub fn session_roots(roots: &Vec<FoundDir>, dirs: &Vec<String>) -> (r: Vec<String>)
    ensures
        texts(r@) == roots@.map_values(|d: FoundDir| session_root(d, texts(dirs@))),
{
    let ghost known = texts(dirs@);
    let ghost f = |d: FoundDir| session_root(d, known);
    let mut out: Vec<String> = Vec::new();
    let mut i: usize = 0;
    while i < roots.len()
        invariant
            i <= roots@.len(),
            known == texts(dirs@),
            f == |d: FoundDir| session_root(d, known),
            texts(out@) == roots@.take(i as int).map_values(f),
        decreases roots@.len() - i,
    {
        let sessions = child_path(roots[i].path.as_str(), "sessions");
        let below: bool = !same(roots[i].name.as_str(), "sessions") && is_listed(
            dirs,
            sessions.as_str(),
        );
        let ghost before = texts(out@);
        if below {
            out.push(sessions);
        } else {
            out.push(roots[i].path.clone());
        }
        assert(texts(out@) =~= before.push(session_root(roots@[i as int], known)));
        assert(roots@.take(i + 1).map_values(f) =~= roots@.take(i as int).map_values(f).push(
            f(roots@[i as int]),
        ));
        i = i + 1;
    }
    assert(roots@.take(i as int) =~= roots@);
    out
}

/// The names of files.
pub open spec fn names_of(files: Seq<FoundFile>) -> Seq<Seq<char>> {
    files.map_values(|f: FoundFile| f.name@)
}

/// The transcript of a directory: of several generations the newest.
pub open spec fn transcript_in(files: Seq<FoundFile>) -> Option<FoundFile> {
    if exists|i: int| is_newest(names_of(files), i) {
        Some(files[choose|i: int| is_newest(names_of(files), i)])
    } else {
        None
    }
}

/// The members among directories, one at most in each, but for the transcripts at the paths that
/// did not change.
pub open spec fn members_among(dirs: Seq<Vec<FoundFile>>, unchanged: Seq<Seq<char>>) -> Seq<Member>
    decreases dirs.len(),
{
    if dirs.len() == 0 {
        Seq::empty()
    } else {
        let before = members_among(dirs.drop_last(), unchanged);
        match transcript_in(dirs.last()@) {
            None => before,
            Some(file) => if unchanged.contains(file.path@) {
                before
            } else {
                match discovered(file) {
                    Some(m) => before.push(m),
                    None => before,
                }
            },
        }
    }
}

fn newest_of(files: &Vec<FoundFile>) -> (r: Option<usize>)
    ensures
        match r {
            Some(i) => i < files@.len() && transcript_in(files@) == Some(files@[i as int]),
            None => transcript_in(files@) is None,
        },
{
    let mut names: Vec<String> = Vec::new();
    let mut i: usize = 0;
    while i < files.len()
        invariant
            i <= files@.len(),
            texts(names@) == names_of(files@.take(i as int)),
        decreases files@.len() - i,
    {
        let ghost before = texts(names@);
        names.push(files[i].name.clone());
        assert(texts(names@) =~= before.push(files@[i as int].name@));
        assert(names_of(files@.take(i + 1)) =~= names_of(files@.take(i as int)).push(
            files@[i as int].name@,
        ));
        i = i + 1;
    }
    assert(files@.take(i as int) =~= files@);
    let r = newest_transcript(&names);
    proof {
        let all = names_of(files@);
        match r {
            Some(k) => {
                assert(is_newest(all, k as int));
                let c = choose|c: int| is_newest(all, c);
                if c != k {
                    assert(generation_named(all[c]) is Some);
                    assert(generation_named(all[k as int]) is Some);
                }
                assert(c == k);
            },
            None => {
                assert forall|c: int| !is_newest(all, c) by {
                    if 0 <= c < all.len() {
                        assert(generation_named(all[c]) is None);
                    }
                }
            },
        }
    }
    r
}

impl DshAdapter {
    /// The members among directories, each with its files, but for the transcripts at the paths
    /// that did not change.
    pub fn discover_members_in(dirs: &Vec<Vec<FoundFile>>, unchanged: &Vec<String>) -> (r: Vec<
        DiscoveredMember,
    >)
        ensures
            r.deep_view() == members_among(dirs@, texts(unchanged@)),
    {
        let ghost known = texts(unchanged@);
        let mut out: Vec<DiscoveredMember> = Vec::new();
        let mut i: usize = 0;
        assert(dirs@.take(0) =~= Seq::<Vec<FoundFile>>::empty());
        assert(out.deep_view() =~= members_among(dirs@.take(0), known));
        while i < dirs.len()
            invariant
                i <= dirs@.len(),
                known == texts(unchanged@),
                out.deep_view() == members_among(dirs@.take(i as int), known),
            decreases dirs@.len() - i,
        {
            assert(dirs@.take(i + 1).drop_last() =~= dirs@.take(i as int));
            assert(dirs@.take(i + 1).last() == dirs@[i as int]);
            match newest_of(&dirs[i]) {
                Some(k) => {
                    if !is_listed(unchanged, dirs[i][k].path.as_str()) {
                        match DshAdapter::parse_member(&dirs[i][k]) {
                            Some(m) => {
                                let ghost before = out.deep_view();
                                out.push(m);
                                assert(out.deep_view() =~= before.push(m.deep_view()));
                            },
                            None => {},
                        }
                    }
                },
                None => {},
            }
            i = i + 1;
        }
        assert(dirs@.take(i as int) =~= dirs@);
        out
    }
}

/// A directory brings one member at most, so no session is found twice under two generations;
/// and no member of another agent is found.
pub proof fn a_directory_is_one_session(dirs: Seq<Vec<FoundFile>>, unchanged: Seq<Seq<char>>)
    ensures
        members_among(dirs, unchanged).len() <= dirs.len(),
        forall|k: int|
            0 <= k < members_among(dirs, unchanged).len() ==> (#[trigger] members_among(
                dirs,
                unchanged,
            )[k]).agent == Agent::Dsh,
    decreases dirs.len(),
{
    if dirs.len() > 0 {
        a_directory_is_one_session(dirs.drop_last(), unchanged);
        let before = members_among(dirs.drop_last(), unchanged);
        let all = members_among(dirs, unchanged);
        assert forall|k: int| 0 <= k < all.len() implies (#[trigger] all[k]).agent
            == Agent::Dsh by {
            if k < before.len() {
                assert(all[k] == before[k]);
            }
        }
    }
}

} // verus!
