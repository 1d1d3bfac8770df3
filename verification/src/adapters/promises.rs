//! What the lines of each format say, and what is found of a transcript, told from the fields of
//! the documents themselves.
use crate::adapters::autoclaw;
use crate::adapters::codex;
use crate::adapters::content::{
    block_texts, blocks_in, documents, prose, records_in, solid_text_at, Blocks,
};
use crate::adapters::dsh;
use crate::adapters::fingerprint::{format_of, MAX_PARSE_LINES};
use crate::adapters::pi;
use crate::adapters::qoder;
use crate::adapters::workbuddy;
use crate::adapters::{injected, shortened, DiscoveredMemberKind, ExecOptions, Member};
use crate::bytes::{lossy_text, zstd_decoded};
use crate::domain::{Agent, MemberObservation, Message, SessionMessageRole};
use crate::json::Tree;
use crate::paths::{extension_of, stem_of, FoundFile};
use crate::text::{
    after_last, blank, ends, first_at, has_text, joined, signed_decimal, split_on, starts, texts,
    trimmed,
};
use crate::time::rfc3339_of_millis;
use vstd::prelude::*;

verus! {

/// A field holds this very text.
pub open spec fn says(v: Tree, key: Seq<char>, s: Seq<char>) -> bool {
    v.field(key) == Some(Tree::Text(s))
}

/// A field holds the truth value that is meant by a mark.
pub open spec fn marked(v: Tree, key: Seq<char>) -> bool {
    v.field(key) == Some(Tree::Bool(true))
}

/// What stands in a field of the message of a line; nothing where there is none.
pub open spec fn in_message(v: Tree, key: Seq<char>) -> Tree {
    match v.inner("message"@, key) {
        Some(t) => t,
        None => Tree::Null,
    }
}

/// Only these calls of tools, compactions and side activities are counted.
pub open spec fn counts(o: MemberObservation, calls: nat, compactions: nat, side: nat) -> bool {
    &&& calls <= u64::MAX ==> o.tool_calls == calls
    &&& o.tool_errors == 0
    &&& o.compactions == compactions
    &&& o.side_activity == side
}

/// A message as it comes out of one line: its place and its time are filled in by the reading.
pub open spec fn bare(
    m: Message,
    id: Option<Seq<char>>,
    role: SessionMessageRole,
    content: Seq<char>,
) -> bool {
    &&& m.source_message_id == id
    &&& m.role == role
    &&& m.content == content
    &&& m.ts is None
    &&& m.source_position.len() == 0
}

proof fn words_differ()
    ensures
        "user"@ != "assistant"@,
        "message"@ != "session"@,
        "message"@ != "compaction"@,
        "message"@ != "compact"@,
        "session"@ != "compaction"@,
        "session"@ != "compact"@,
{
    reveal_strlit("user");
    reveal_strlit("assistant");
    reveal_strlit("message");
    reveal_strlit("session");
    reveal_strlit("compaction");
    reveal_strlit("compact");
    assert("user"@.len() != "assistant"@.len());
    assert("message"@[0] != "session"@[0]);
    assert("message"@.len() != "compaction"@.len());
    assert("message"@[0] != "compact"@[0]);
    assert("session"@.len() != "compaction"@.len());
    assert("session"@[0] != "compact"@[0]);
}

// ---------------------------------------------------------------------------
// Pi
// ---------------------------------------------------------------------------

/// A message line of a root whose prose is not blank is a message: of the user, unless it opens
/// with a tag or a heading; of the assistant whatever it opens with, under the provider and the
/// model that it names. A compaction is counted. Nothing else says anything.
pub proof fn what_a_pi_line_says(v: Tree, is_root: bool)
    ensures
        ({
            let text = prose(in_message(v, "content"@), Blocks::Text);
            let role = in_message(v, "role"@);
            let user = says(v, "type"@, "message"@) && is_root && !blank(text) && role
                == Tree::Text("user"@) && !injected(text);
            let assistant = says(v, "type"@, "message"@) && is_root && !blank(text) && role
                == Tree::Text("assistant"@);
            let compacted = says(v, "type"@, "compaction"@) || says(v, "type"@, "compact"@);
            let l = pi::line_of(v, is_root);
            &&& l is Some <==> user || assistant || compacted
            &&& compacted ==> l->0.message is None && counts(l->0.observation, 0, 1, 0)
            &&& user ==> counts(l->0.observation, 0, 0, 0) && l->0.message is Some && bare(
                l->0.message->0,
                v.text_at("id"@),
                SessionMessageRole::User,
                text,
            ) && l->0.message->0.provider is None && l->0.message->0.model is None
            &&& assistant ==> counts(l->0.observation, 0, 0, 0) && l->0.message is Some && bare(
                l->0.message->0,
                v.text_at("id"@),
                SessionMessageRole::Assistant,
                text,
            ) && l->0.message->0.provider == v.field_or_null("message"@).text_at("provider"@)
                && l->0.message->0.model == v.field_or_null("message"@).text_at("model"@)
        }),
{
    words_differ();
}

/// A transcript keeps what its header says, and the first words of the user and of the assistant;
/// once the session and the user's words are known nothing more is looked at.
pub proof fn one_more_pi_document(docs: Seq<(int, Tree)>, idx: int, v: Tree)
    ensures
        ({
            let before = pi::TranscriptFacts::of(docs);
            let after = pi::TranscriptFacts::of(docs.push((idx, v)));
            let text = prose(in_message(v, "content"@), Blocks::Text);
            let role = in_message(v, "role"@);
            let done = before.session_id is Some && before.first_user_text is Some;
            let header = says(v, "type"@, "session"@);
            let message = says(v, "type"@, "message"@);
            &&& done ==> after == before
            &&& !done && header ==> after.session_id == v.text_at("id"@) && after.cwd == v.text_at(
                "cwd"@,
            ) && after.started_at == v.text_at("timestamp"@)
            &&& !done && !header ==> after.session_id == before.session_id && after.cwd
                == before.cwd && after.started_at == before.started_at
            &&& !done && message && before.first_user_text is None && role == Tree::Text("user"@)
                && text.len() > 0 && !injected(text) ==> after.first_user_text == Some(
                shortened(text, 400),
            )
            &&& !(message && role == Tree::Text("user"@) && text.len() > 0 && !injected(text))
                ==> after.first_user_text == before.first_user_text
            &&& before.first_user_text is Some ==> after.first_user_text == before.first_user_text
            &&& !done && message && before.first_agent_text is None && role == Tree::Text(
                "assistant"@,
            ) && text.len() > 0 ==> after.first_agent_text == Some(shortened(text, 400))
            &&& !(message && role == Tree::Text("assistant"@) && text.len() > 0)
                ==> after.first_agent_text == before.first_agent_text
            &&& before.first_agent_text is Some ==> after.first_agent_text
                == before.first_agent_text
        }),
        ({
            let none = pi::TranscriptFacts::of(Seq::empty());
            none.session_id is None && none.cwd is None && none.started_at is None
                && none.first_user_text is None && none.first_agent_text is None
        }),
{
    words_differ();
    assert(docs.push((idx, v)).drop_last() =~= docs);
}

/// A transcript is the root of the session that its header names, else of the one that stands
/// behind the last underscore of its file name; without either it is none.
pub proof fn a_pi_transcript_is_a_root(file: FoundFile, docs: Seq<(int, Tree)>)
    ensures
        ({
            let facts = pi::TranscriptFacts::of(docs);
            let id = match facts.session_id {
                Some(id) => id,
                None => after_last(stem_of(file.name@), '_'),
            };
            let m = pi::member_with(file, docs);
            &&& m is Some <==> id.len() > 0
            &&& m is Some ==> m->0.agent == Agent::Pi && m->0.kind == DiscoveredMemberKind::Root
                && m->0.source_member_id == id && m->0.parent_source_member_id is None
                && m->0.root_hint is None && m->0.source_kind == "pi_session_transcript"@
                && m->0.source_path == file.path@ && m->0.cwd == facts.cwd && m->0.started_at
                == facts.started_at && m->0.last_activity_at == file.modified.deep_view()
                && m->0.native_title is None && m->0.first_user_text == facts.first_user_text
                && m->0.first_agent_text == facts.first_agent_text
        }),
        pi::member_of(file) == pi::member_with(file, documents(file.data@)),
        extension_of(file.name@) == Some("jsonl"@) && format_of(
            texts(file.head@),
            MAX_PARSE_LINES as int,
        ) == Some(Agent::Pi) ==> pi::discovered(file) == pi::member_of(file),
        !(extension_of(file.name@) == Some("jsonl"@) && format_of(
            texts(file.head@),
            MAX_PARSE_LINES as int,
        ) == Some(Agent::Pi)) ==> pi::discovered(file) is None,
{
}

/// An override is handed on under its own flag: the provider, the model, the effort.
pub proof fn pi_overrides_are_handed_on(opts: ExecOptions)
    ensures
        pi::runtime(opts) == (match opts.provider {
            Some(p) => seq!["--provider"@, p@],
            None => Seq::empty(),
        }) + (match opts.model {
            Some(m) => seq!["--model"@, m@],
            None => Seq::empty(),
        }) + (match opts.effort {
            Some(e) => seq!["--thinking"@, e@],
            None => Seq::empty(),
        }),
{
}

// ---------------------------------------------------------------------------
// AutoClaw
// ---------------------------------------------------------------------------

/// A message line of a root whose prose is not blank is a message: of the user, unless it opens
/// with a tag or a heading, or of the assistant. The calls of tools in a message line and
/// compactions are counted. Nothing else says anything.
pub proof fn what_an_autoclaw_line_says(v: Tree, is_root: bool)
    requires
        blocks_in(in_message(v, "content"@), "toolCall"@) <= u64::MAX,
    ensures
        ({
            let text = prose(in_message(v, "content"@), Blocks::Text);
            let role = in_message(v, "role"@);
            let calls = blocks_in(in_message(v, "content"@), "toolCall"@);
            let message = says(v, "type"@, "message"@);
            let user = message && is_root && !blank(text) && role == Tree::Text("user"@)
                && !injected(text);
            let assistant = message && is_root && !blank(text) && role == Tree::Text(
                "assistant"@,
            );
            let compacted = says(v, "type"@, "compaction"@) || says(v, "type"@, "compact"@);
            let l = autoclaw::line_of(v, is_root);
            &&& l is Some <==> compacted || (message && (calls > 0 || !blank(text)))
            &&& compacted ==> l->0.message is None && counts(l->0.observation, 0, 1, 0)
            &&& message && l is Some ==> counts(l->0.observation, calls, 0, 0) && (l->0.message
                is Some <==> user || assistant)
            &&& user ==> bare(
                l->0.message->0,
                v.text_at("id"@),
                SessionMessageRole::User,
                text,
            )
            &&& assistant ==> bare(
                l->0.message->0,
                v.text_at("id"@),
                SessionMessageRole::Assistant,
                text,
            )
            &&& user || assistant ==> l->0.message->0.provider is None && l->0.message->0.model
                is None
        }),
{
    words_differ();
}

/// A transcript keeps what the header in its first line says, the first and the last time, and
/// the first words of the user and of the assistant. A header in another line, or one without a
/// version or an id, refuses it for good.
pub proof fn one_more_autoclaw_document(docs: Seq<(int, Tree)>, idx: int, v: Tree)
    ensures
        ({
            let before = autoclaw::TranscriptFacts::of(docs);
            let after = autoclaw::TranscriptFacts::of(docs.push((idx, v)));
            let text = prose(in_message(v, "content"@), Blocks::Text);
            let role = in_message(v, "role"@);
            let time = v.text_at("timestamp"@);
            let header = says(v, "type"@, "session"@);
            let good = header && idx == 0 && v.has("version"@) && v.has("id"@);
            let message = says(v, "type"@, "message"@);
            let u = message && role == Tree::Text("user"@) && text.len() > 0 && !injected(text);
            let a = message && role == Tree::Text("assistant"@) && text.len() > 0;
            &&& before.refused ==> after == before
            &&& !before.refused ==> {
                &&& after.refused <==> header && !good
                &&& good ==> after.header_id == v.text_at("id"@) && after.cwd == solid_text_at(
                    v,
                    "cwd"@,
                )
                &&& !good ==> after.header_id == before.header_id && after.cwd == before.cwd
                &&& after.started_at == (if good && time is Some {
                    time
                } else if before.started_at is Some {
                    before.started_at
                } else {
                    time
                })
                &&& after.last_ts == (if time is Some {
                    time
                } else {
                    before.last_ts
                })
                &&& after.first_user_text == (if before.first_user_text is None && u {
                    Some(shortened(text, 400))
                } else {
                    before.first_user_text
                })
                &&& after.first_agent_text == (if before.first_agent_text is None && a {
                    Some(shortened(text, 400))
                } else {
                    before.first_agent_text
                })
            }
        }),
        ({
            let none = autoclaw::TranscriptFacts::of(Seq::empty());
            !none.refused && none.header_id is None && none.cwd is None && none.started_at is None
                && none.last_ts is None && none.first_user_text is None && none.first_agent_text
                is None
        }),
{
    words_differ();
    assert(docs.push((idx, v)).drop_last() =~= docs);
}

/// A transcript that is not refused and whose header names it is the root of a session that goes
/// by the agent and that name; where it stands tells the agent.
pub proof fn an_autoclaw_transcript_is_a_root(
    file: FoundFile,
    agent: Seq<char>,
    docs: Seq<(int, Tree)>,
)
    ensures
        ({
            let facts = autoclaw::TranscriptFacts::of(docs);
            let m = autoclaw::member_with(file, agent, docs);
            &&& m is Some <==> !facts.refused && facts.header_id is Some
            &&& m is Some ==> m->0.agent == Agent::AutoClaw && m->0.kind
                == DiscoveredMemberKind::Root && m->0.source_member_id == agent + ":"@
                + facts.header_id->0 && m->0.parent_source_member_id is None && m->0.root_hint
                is None && m->0.source_kind == "autoclaw_transcript"@ && m->0.source_path
                == file.path@ && m->0.cwd == facts.cwd && m->0.started_at == facts.started_at
                && m->0.last_activity_at == (match file.modified {
                Some(t) => Some(t@),
                None => facts.last_ts,
            }) && m->0.native_title is None && m->0.first_user_text == facts.first_user_text
                && m->0.first_agent_text == facts.first_agent_text && m->0.metadata.text_at(
                "agent_id"@,
            ) == Some(agent)
        }),
        autoclaw::agent_of_place(file) is Some <==> ends(file.name@, ".jsonl"@) && !has_text(
            file.name@,
            ".trajectory"@,
        ) && file.ancestors@.len() >= 3 && file.ancestors@[0].name@ == "sessions"@
            && file.ancestors@[2].name@ == "agents"@,
        autoclaw::agent_of_place(file) matches Some(a) ==> a == file.ancestors@[1].name@
            && autoclaw::discovered(file) == autoclaw::member_with(file, a, documents(file.data@)),
{
    let facts = autoclaw::TranscriptFacts::of(docs);
    let fields = seq![("agent_id"@, Tree::Text(agent))];
    assert(fields[0].0 == "agent_id"@);
    assert(crate::json::lookup(fields, "agent_id"@) == Some(Tree::Text(agent)));
}

// ---------------------------------------------------------------------------
// Qoder
// ---------------------------------------------------------------------------

/// A line of the user or the assistant on the main chain of a root whose prose is not blank is a
/// message: of the user, unless it opens with a tag or a heading; of the assistant whatever it
/// opens with, under its model unless that is made up. A line of the user with a tool's result is
/// one call of a tool, and a line of a side chain one side activity.
pub proof fn what_a_qoder_line_says(v: Tree, is_root: bool)
    ensures
        ({
            let text = prose(in_message(v, "content"@), Blocks::Text);
            let user = says(v, "type"@, "user"@);
            let assistant = says(v, "type"@, "assistant"@);
            let side = marked(v, "isSidechain"@);
            let l = qoder::line_of(v, is_root);
            &&& l is Some <==> user || assistant
            &&& l is Some ==> counts(
                l->0.observation,
                if user && v.field("toolUseResult"@) is Some {
                    1
                } else {
                    0
                },
                0,
                if side {
                    1
                } else {
                    0
                },
            )
            &&& user ==> (l->0.message is Some <==> is_root && !side && !blank(text) && !injected(
                text,
            ))
            &&& assistant ==> (l->0.message is Some <==> is_root && !side && !blank(text))
            &&& user && l->0.message is Some ==> bare(
                l->0.message->0,
                v.text_at("uuid"@),
                SessionMessageRole::User,
                text,
            ) && l->0.message->0.model is None && l->0.message->0.provider is None
            &&& assistant && l->0.message is Some ==> bare(
                l->0.message->0,
                v.text_at("uuid"@),
                SessionMessageRole::Assistant,
                text,
            ) && l->0.message->0.provider is None && l->0.message->0.model == (
            match v.field_or_null("message"@).text_at("model"@) {
                Some(m) => if m == "<synthetic>"@ {
                    None
                } else {
                    Some(m)
                },
                None => None,
            })
        }),
{
    words_differ();
}

/// A transcript keeps the first session id, directory and time that its documents name, the last
/// time, and the first words of the user and of the assistant on the main chain.
pub proof fn one_more_qoder_document(docs: Seq<(int, Tree)>, idx: int, v: Tree)
    ensures
        ({
            let before = qoder::TranscriptFacts::of(docs);
            let after = qoder::TranscriptFacts::of(docs.push((idx, v)));
            let text = prose(in_message(v, "content"@), Blocks::Text);
            let time = v.text_at("timestamp"@);
            let side = marked(v, "isSidechain"@);
            let u = says(v, "type"@, "user"@) && !side && text.len() > 0 && !injected(text);
            let a = says(v, "type"@, "assistant"@) && !side && text.len() > 0;
            &&& after.session_id == (if before.session_id is Some {
                before.session_id
            } else {
                v.text_at("sessionId"@)
            })
            &&& after.cwd == (if before.cwd is Some {
                before.cwd
            } else {
                solid_text_at(v, "cwd"@)
            })
            &&& after.started_at == (if before.started_at is Some {
                before.started_at
            } else {
                time
            })
            &&& after.last_ts == (if time is Some {
                time
            } else {
                before.last_ts
            })
            &&& after.first_user_text == (if before.first_user_text is None && u {
                Some(shortened(text, 400))
            } else {
                before.first_user_text
            })
            &&& after.first_agent_text == (if before.first_agent_text is None && a {
                Some(shortened(text, 400))
            } else {
                before.first_agent_text
            })
        }),
        ({
            let none = qoder::TranscriptFacts::of(Seq::empty());
            none.session_id is None && none.cwd is None && none.started_at is None && none.last_ts
                is None && none.first_user_text is None && none.first_agent_text is None
        }),
{
    assert(docs.push((idx, v)).drop_last() =~= docs);
}

/// The session that documents name is the first that is not empty.
pub proof fn the_first_session_id_counts(docs: Seq<(int, Tree)>)
    ensures
        match qoder::session_id_among(docs) {
            Some(id) => id.len() > 0 && exists|i: int|
                0 <= i < docs.len() && says((#[trigger] docs[i]).1, "sessionId"@, id) && forall|
                    j: int,
                |
                    0 <= j < i ==> solid_text_at((#[trigger] docs[j]).1, "sessionId"@) is None,
            None => forall|i: int|
                0 <= i < docs.len() ==> solid_text_at((#[trigger] docs[i]).1, "sessionId"@) is None,
        },
    decreases docs.len(),
{
    if docs.len() > 0 {
        if solid_text_at(docs[0].1, "sessionId"@) is Some {
            assert(says(docs[0].1, "sessionId"@, qoder::session_id_among(docs)->0));
        } else {
            let rest = docs.drop_first();
            the_first_session_id_counts(rest);
            assert(forall|i: int| 0 < i < docs.len() ==> #[trigger] docs[i] == rest[i - 1]);
            match qoder::session_id_among(rest) {
                Some(id) => {
                    let i = choose|i: int|
                        0 <= i < rest.len() && says((#[trigger] rest[i]).1, "sessionId"@, id)
                            && forall|j: int|
                            0 <= j < i ==> solid_text_at((#[trigger] rest[j]).1, "sessionId"@)
                                is None;
                    assert(says(docs[i + 1].1, "sessionId"@, id));
                    assert forall|j: int| 0 <= j < i + 1 implies solid_text_at(
                        (#[trigger] docs[j]).1,
                        "sessionId"@,
                    ) is None by {
                        if j > 0 {
                            assert(solid_text_at(rest[j - 1].1, "sessionId"@) is None);
                        }
                    }
                },
                None => {},
            }
        }
    }
}

/// A main transcript is the root of the session that its documents name, else of one that goes by
/// its file name. A subagent's transcript is a child of the session that its documents name, known
/// by that session and its file name; without one it is none.
pub proof fn a_qoder_transcript_is_found(file: FoundFile, docs: Seq<(int, Tree)>)
    ensures
        ({
            let facts = qoder::TranscriptFacts::of(docs);
            let m = qoder::root_with(file, docs);
            &&& m.agent == Agent::Qoder
            &&& m.kind == DiscoveredMemberKind::Root
            &&& m.source_member_id == (match facts.session_id {
                Some(id) => id,
                None => stem_of(file.name@),
            })
            &&& m.parent_source_member_id is None
            &&& m.root_hint is None
            &&& m.source_kind == "qoder_transcript"@
            &&& m.source_path == file.path@
            &&& m.cwd == facts.cwd
            &&& m.started_at == facts.started_at
            &&& m.last_activity_at == (match file.modified {
                Some(t) => Some(t@),
                None => facts.last_ts,
            })
            &&& m.native_title is None
            &&& m.first_user_text == facts.first_user_text
            &&& m.first_agent_text == facts.first_agent_text
        }),
        qoder::child_with(file, docs) is Some <==> qoder::session_id_among(docs) is Some,
        qoder::child_with(file, docs) is Some ==> {
            let m = qoder::child_with(file, docs)->0;
            let root = qoder::session_id_among(docs)->0;
            &&& m.agent == Agent::Qoder
            &&& m.kind == DiscoveredMemberKind::Child
            &&& m.source_member_id == root + ":subagent:"@ + stem_of(file.name@)
            &&& m.parent_source_member_id == Some(root)
            &&& m.root_hint == Some(root)
            &&& m.source_kind == "qoder_subagent_transcript"@
            &&& m.source_path == file.path@
            &&& m.cwd is None
            &&& m.native_title is None
            &&& m.last_activity_at == file.modified.deep_view()
        },
        qoder::subagent_file(file) <==> starts(file.name@, "agent-"@) && ends(
            file.name@,
            ".jsonl"@,
        ) && file.ancestors@.len() >= 2 && file.ancestors@[0].name@ == "subagents"@,
        extension_of(file.name@) != Some("jsonl"@) ==> qoder::discovered(file) is None,
        extension_of(file.name@) == Some("jsonl"@) && qoder::subagent_file(file)
            ==> qoder::discovered(file) == qoder::child_with(file, documents(file.data@)),
        extension_of(file.name@) == Some("jsonl"@) && !qoder::subagent_file(file) ==> (
        qoder::discovered(file) is Some <==> format_of(texts(file.head@), MAX_PARSE_LINES as int)
            == Some(Agent::Qoder)),
        !qoder::subagent_file(file) && qoder::discovered(file) is Some ==> qoder::discovered(file)
            == Some(qoder::root_with(file, documents(file.data@))),
{
}

/// A title counts exactly where it is not blank and the editor settled on it.
pub proof fn a_qoder_title_is_settled(title: Seq<char>, source: Option<Seq<char>>)
    ensures
        match qoder::title_from_source(title, source) {
            Some(t) => t == title && !blank(title) && source is Some && source->0
                != "provisional"@,
            None => blank(title) || source is None || source->0 == "provisional"@,
        },
{
}

// ---------------------------------------------------------------------------
// WorkBuddy
// ---------------------------------------------------------------------------

/// A message in the user's name that replays a compaction is one, whatever it quotes; else what
/// stands between the tags of a query is the prompt; else a text that opens with a tag or a
/// heading is no prompt, and any other is one as it stands.
pub proof fn what_a_user_turn_is(raw: Seq<char>)
    ensures
        ({
            let replayed = starts(raw, "<conversation_history_summary"@) || starts(
                raw,
                "<cb_summary"@,
            );
            let tag = first_at(raw, "<user_query>"@);
            let rest = raw.skip(tag->0 + "<user_query>"@.len());
            let inner = match first_at(rest, "</user_query>"@) {
                Some(j) => rest.take(j),
                None => rest,
            };
            let asked = tag is Some && !blank(inner);
            match workbuddy::turn_of(raw) {
                workbuddy::Turn::Compaction => replayed,
                workbuddy::Turn::Prompt(p) => !replayed && (asked ==> p == trimmed(inner)) && (
                !asked ==> p == raw && !injected(raw)),
                workbuddy::Turn::Envelope => !replayed && !asked && injected(raw),
            }
        }),
{
}

/// A message line whose prose is not blank is an event: the user's prompt, the fact of a
/// compaction, the assistant's words, or a notice; an envelope without a prompt is none.
pub proof fn what_a_workbuddy_line_says(v: Tree)
    ensures
        ({
            let text = prose(v.field_or_null("content"@), Blocks::InputOrOutput);
            let message = says(v, "type"@, "message"@) && !blank(text);
            let user = says(v, "role"@, "user"@);
            let turn = workbuddy::turn_of(text);
            let e = workbuddy::event_of(v);
            &&& e is Some <==> message && !(user && turn is Envelope)
            &&& e is Some ==> e->0.source_event_id == v.text_at("id"@) && e->0.ts is None
                && e->0.source_position.len() == 0
            &&& message && user && turn is Prompt ==> e->0.kind == "user_message"@ && e->0.text
                == Some(turn->Prompt_0)
            &&& message && user && turn is Compaction ==> e->0.kind == "compact"@ && e->0.text
                == Some("conversation compacted"@)
            &&& message && says(v, "role"@, "assistant"@) ==> e->0.kind == "assistant_message"@
                && e->0.text == Some(text)
            &&& message && !user && !says(v, "role"@, "assistant"@) ==> e->0.kind == "system"@
                && e->0.text == Some(text)
        }),
{
    words_differ();
}

/// A transcript keeps the first session id, directory and time that its documents name, the last
/// time and the last title, and the first words of the user and of the assistant.
pub proof fn one_more_workbuddy_document(docs: Seq<(int, Tree)>, idx: int, v: Tree)
    ensures
        ({
            let before = workbuddy::TranscriptFacts::of(docs);
            let after = workbuddy::TranscriptFacts::of(docs.push((idx, v)));
            let text = prose(v.field_or_null("content"@), Blocks::InputOrOutput);
            let time = match v.whole_at("timestamp"@) {
                Some(ms) => rfc3339_of_millis(ms),
                None => None,
            };
            let message = says(v, "type"@, "message"@);
            let turn = workbuddy::turn_of(text);
            let titled = says(v, "type"@, "ai-title"@) && v.text_at("aiTitle"@) is Some && !blank(
                v.text_at("aiTitle"@)->0,
            );
            &&& after.session_id == (if before.session_id is Some {
                before.session_id
            } else {
                v.text_at("sessionId"@)
            })
            &&& after.cwd == (if before.cwd is Some {
                before.cwd
            } else {
                solid_text_at(v, "cwd"@)
            })
            &&& after.started_at == (if before.started_at is Some {
                before.started_at
            } else {
                time
            })
            &&& after.last_ts == (if time is Some {
                time
            } else {
                before.last_ts
            })
            &&& after.native_title == (if titled {
                v.text_at("aiTitle"@)
            } else {
                before.native_title
            })
            &&& after.first_user_text == (if before.first_user_text is None && message && says(
                v,
                "role"@,
                "user"@,
            ) && turn is Prompt {
                Some(shortened(turn->Prompt_0, 400))
            } else {
                before.first_user_text
            })
            &&& after.first_agent_text == (if before.first_agent_text is None && message && says(
                v,
                "role"@,
                "assistant"@,
            ) && !blank(text) {
                Some(shortened(text, 400))
            } else {
                before.first_agent_text
            })
        }),
        ({
            let none = workbuddy::TranscriptFacts::of(Seq::empty());
            none.session_id is None && none.cwd is None && none.started_at is None && none.last_ts
                is None && none.native_title is None && none.first_user_text is None
                && none.first_agent_text is None
        }),
{
    assert(docs.push((idx, v)).drop_last() =~= docs);
}

/// A transcript is the session that its documents name, else one that goes by its file name.
pub proof fn a_workbuddy_transcript_is_a_session(file: FoundFile, docs: Seq<(int, Tree)>)
    ensures
        ({
            let facts = workbuddy::TranscriptFacts::of(docs);
            let s = workbuddy::session_with(file, docs);
            &&& s.agent == Agent::WorkBuddy
            &&& s.agent_session_id == (match facts.session_id {
                Some(id) => id,
                None => stem_of(file.name@),
            })
            &&& s.path == file.path@
            &&& s.cwd == facts.cwd
            &&& s.started_at == facts.started_at
            &&& s.last_activity_at == (match file.modified {
                Some(t) => Some(t@),
                None => facts.last_ts,
            })
            &&& s.native_title == facts.native_title
            &&& s.first_user_text == facts.first_user_text
            &&& s.first_agent_text == facts.first_agent_text
            &&& s.parent_agent_session_id is None
        }),
        workbuddy::discovered(file) is Some <==> extension_of(file.name@) == Some("jsonl"@)
            && format_of(texts(file.head@), MAX_PARSE_LINES as int) == Some(Agent::WorkBuddy),
        workbuddy::discovered(file) is Some ==> workbuddy::discovered(file) == Some(
            workbuddy::session_with(file, documents(file.data@)),
        ),
{
}

// ---------------------------------------------------------------------------
// Codex
// ---------------------------------------------------------------------------

proof fn codex_words_differ()
    ensures
        "response_item"@ != "event_msg"@,
        "response_item"@ != "session_meta"@,
        "message"@ != "agent_message"@,
        "message"@ != "function_call"@,
        "message"@ != "custom_tool_call"@,
        "agent_message"@ != "function_call"@,
        "agent_message"@ != "custom_tool_call"@,
{
    reveal_strlit("response_item");
    reveal_strlit("event_msg");
    reveal_strlit("session_meta");
    reveal_strlit("message");
    reveal_strlit("agent_message");
    reveal_strlit("function_call");
    reveal_strlit("custom_tool_call");
    assert("response_item"@.len() != "event_msg"@.len());
    assert("response_item"@.len() != "session_meta"@.len());
    assert("message"@.len() != "agent_message"@.len());
    assert("message"@.len() != "function_call"@.len());
    assert("message"@.len() != "custom_tool_call"@.len());
    assert("agent_message"@[0] != "function_call"@[0]);
    assert("agent_message"@.len() != "custom_tool_call"@.len());
}

/// A message of the conversation, in the rollout of a root and with prose that is not blank, is a
/// message: of the user, unless it opens with a tag or a heading, or of the assistant. A message
/// between agents is one side activity, a call of a tool one call, and an event of a compaction
/// one compaction. Nothing else says anything.
pub proof fn what_a_codex_line_says(v: Tree, is_root: bool)
    ensures
        ({
            let p = v.field_or_null("payload"@);
            let text = prose(p.field_or_null("content"@), Blocks::Any);
            let item = says(v, "type"@, "response_item"@);
            let message = item && says(p, "type"@, "message"@) && is_root && !blank(text);
            let user = message && says(p, "role"@, "user"@) && !injected(text);
            let assistant = message && says(p, "role"@, "assistant"@);
            let side = item && says(p, "type"@, "agent_message"@) && !blank(text);
            let call = item && (says(p, "type"@, "function_call"@) || says(
                p,
                "type"@,
                "custom_tool_call"@,
            ));
            let compacted = says(v, "type"@, "event_msg"@) && p.text_at("type"@) is Some
                && has_text(p.text_at("type"@)->0, "compact"@);
            let id = match v.text_at("id"@) {
                Some(id) => Some(id),
                None => p.text_at("id"@),
            };
            let l = codex::line_of(v, is_root);
            &&& l is Some <==> user || assistant || side || call || compacted
            &&& l is Some ==> (l->0.message is Some <==> user || assistant)
            &&& user ==> counts(l->0.observation, 0, 0, 0) && bare(
                l->0.message->0,
                id,
                SessionMessageRole::User,
                text,
            )
            &&& assistant ==> counts(l->0.observation, 0, 0, 0) && bare(
                l->0.message->0,
                id,
                SessionMessageRole::Assistant,
                text,
            )
            &&& user || assistant ==> l->0.message->0.provider is None && l->0.message->0.model
                is None
            &&& side ==> counts(l->0.observation, 0, 0, 1)
            &&& call ==> counts(l->0.observation, 1, 0, 0)
            &&& compacted ==> counts(l->0.observation, 0, 1, 0)
        }),
{
    words_differ();
    codex_words_differ();
}

/// A rollout keeps what its metadata says, and the first words of the user and of the assistant;
/// a thread that was not started by a user has none of a user. Once the metadata and the words are
/// known nothing more is looked at.
pub proof fn one_more_codex_document(docs: Seq<(int, Tree)>, idx: int, v: Tree)
    ensures
        ({
            let before = codex::RolloutFacts::of(docs);
            let after = codex::RolloutFacts::of(docs.push((idx, v)));
            let p = match v.field("payload"@) {
                Some(p) => p,
                None => v,
            };
            let text = prose(p.field_or_null("content"@), Blocks::Any);
            let own = before.thread_source == Some("subagent"@) || before.thread_source == Some(
                "guardian_review"@,
            );
            let done = before.meta_seen && (before.first_user_text is Some || (own
                && before.first_agent_text is Some));
            let meta = says(v, "type"@, "session_meta"@);
            let message = says(v, "type"@, "response_item"@) && says(p, "type"@, "message"@);
            let u = message && says(p, "role"@, "user"@) && !own && text.len() > 0 && !injected(
                text,
            );
            let a = message && says(p, "role"@, "assistant"@) && text.len() > 0;
            &&& done ==> after == before
            &&& !done && meta ==> {
                &&& after.meta_seen
                &&& after.meta_id == p.text_at("id"@)
                &&& after.legacy_session_id == p.text_at("session_id"@)
                &&& after.cwd == p.text_at("cwd"@)
                &&& after.started_at == p.text_at("timestamp"@)
                &&& after.parent == p.text_at("parent_thread_id"@)
                &&& after.thread_source == p.text_at("thread_source"@)
                &&& after.fork_base == (match p.field("history_base"@) {
                    Some(h) => h.text_at("thread_id"@),
                    None => None,
                })
            }
            &&& !meta ==> {
                &&& after.meta_seen == before.meta_seen
                &&& after.meta_id == before.meta_id
                &&& after.legacy_session_id == before.legacy_session_id
                &&& after.cwd == before.cwd
                &&& after.started_at == before.started_at
                &&& after.parent == before.parent
                &&& after.thread_source == before.thread_source
                &&& after.fork_base == before.fork_base
            }
            &&& !done ==> after.first_user_text == (if before.first_user_text is None && u {
                Some(shortened(text, 400))
            } else {
                before.first_user_text
            })
            &&& !done ==> after.first_agent_text == (if before.first_agent_text is None && a {
                Some(text)
            } else {
                before.first_agent_text
            })
        }),
        ({
            let none = codex::RolloutFacts::of(Seq::empty());
            !none.meta_seen && none.meta_id is None && none.legacy_session_id is None && none.cwd
                is None && none.started_at is None && none.parent is None && none.fork_base is None
                && none.thread_source is None && none.first_user_text is None
                && none.first_agent_text is None
        }),
{
    words_differ();
    codex_words_differ();
    assert(docs.push((idx, v)).drop_last() =~= docs);
}

/// A rollout goes by the id that its documents name, else by the one in its file name, else by
/// the conversation that it was joined to; a continued page goes by its file name first.
pub proof fn a_rollout_has_an_identity(facts: codex::RolloutFacts, name: Seq<char>)
    ensures
        ({
            let by_name = codex::thread_id(name);
            let id = facts.identity(name);
            &&& id is None <==> by_name is None && facts.meta_id is None
                && facts.legacy_session_id is None
            &&& codex::forked_name(name) && by_name is Some ==> id == by_name
            &&& codex::forked_name(name) && by_name is None && facts.meta_id is Some ==> id
                == facts.meta_id
            &&& !codex::forked_name(name) && facts.meta_id is Some ==> id == facts.meta_id
            &&& !codex::forked_name(name) && facts.meta_id is None && by_name is Some ==> id
                == by_name
            &&& by_name is None && facts.meta_id is None ==> id == facts.legacy_session_id
        }),
{
}

/// A name begins the name of a rollout only behind its prefix; a second id in it makes a continued
/// page; the thread is the last five parts of what stands behind the last underscore.
pub proof fn a_rollout_is_named(name: Seq<char>)
    ensures
        ({
            let rest = stem_of(name).skip("rollout-"@.len() as int);
            let parts = split_on(after_last(rest, '_'), '-');
            let named = starts(stem_of(name), "rollout-"@);
            &&& !named ==> codex::thread_id(name) is None && !codex::forked_name(name)
            &&& named ==> (codex::forked_name(name) <==> rest.contains('_'))
            &&& named && parts.len() < 5 ==> codex::thread_id(name) is None
            &&& named && parts.len() >= 5 ==> codex::thread_id(name) == Some(
                joined(parts.subrange(parts.len() - 5, parts.len() as int), "-"@),
            )
        }),
{
    let rest = stem_of(name).skip("rollout-"@.len() as int);
    let parts = split_on(after_last(rest, '_'), '-');
    if parts.len() >= 5 {
        assert(parts.skip(parts.len() - 5) =~= parts.subrange(
            parts.len() - 5,
            parts.len() as int,
        ));
    }
}

/// A continued page is a root of its own; else a subagent's thread is a child, a review is beside
/// the conversation, and any other thread is a root. Only a root carries words.
pub proof fn what_a_rollout_is(
    facts: codex::RolloutFacts,
    name: Seq<char>,
    path: Seq<char>,
    modified: Option<Seq<char>>,
    id: Seq<char>,
)
    ensures
        ({
            let m = codex::member_of(facts, name, path, modified, id);
            let forked = codex::forked_name(name);
            let child = !forked && facts.thread_source == Some("subagent"@);
            let side = !forked && facts.thread_source == Some("guardian_review"@);
            &&& m.agent == Agent::Codex
            &&& m.source_member_id == id
            &&& forked ==> m.kind == DiscoveredMemberKind::ForkRoot
            &&& child ==> m.kind == DiscoveredMemberKind::Child
            &&& side ==> m.kind == DiscoveredMemberKind::Side
            &&& !forked && !child && !side ==> m.kind == DiscoveredMemberKind::Root
            &&& m.parent_source_member_id == (if facts.parent is Some {
                facts.parent
            } else if facts.fork_base != Some(id) {
                facts.fork_base
            } else {
                None
            })
            &&& m.root_hint == m.parent_source_member_id
            &&& m.source_kind == "codex_rollout"@
            &&& m.source_path == path
            &&& m.cwd == facts.cwd
            &&& m.started_at == facts.started_at
            &&& m.last_activity_at == modified
            &&& m.native_title is None
            &&& child || side ==> m.first_user_text is None && m.first_agent_text is None
            &&& !child && !side ==> m.first_user_text == facts.first_user_text
            &&& !child && !side ==> m.first_agent_text == (match facts.first_agent_text {
                Some(t) => Some(shortened(t, 400)),
                None => None,
            })
        }),
{
    reveal_strlit("subagent");
    reveal_strlit("guardian_review");
    assert("subagent"@.len() != "guardian_review"@.len());
}

/// The names of threads stand in the order of their documents; one without an id, or blank, is
/// none.
pub proof fn thread_names_stand_in_order(docs: Seq<(int, Tree)>, idx: int, v: Tree)
    ensures
        codex::names_in(docs.push((idx, v))) == (if v.text_at("id"@) is Some && v.text_at(
            "thread_name"@,
        ) is Some && !blank(v.text_at("thread_name"@)->0) {
            codex::names_in(docs).push((v.text_at("id"@)->0, v.text_at("thread_name"@)->0))
        } else {
            codex::names_in(docs)
        }),
        codex::names_in(Seq::empty()).len() == 0,
{
    assert(docs.push((idx, v)).drop_last() =~= docs);
}

/// The names of a later index come last.
pub proof fn thread_names_of_later_indexes_come_last(indexes: Seq<Vec<u8>>, index: Vec<u8>)
    ensures
        codex::names_in_all(indexes.push(index)) == codex::names_in_all(indexes)
            + codex::names_in(documents(index@)),
        codex::names_in_all(Seq::empty()).len() == 0,
{
    assert(indexes.push(index).drop_last() =~= indexes);
}

/// The title of a thread is the last name that it was given, unless that is only the head of what
/// the user said first.
pub proof fn the_last_name_is_the_title(
    names: Seq<(Seq<char>, Seq<char>)>,
    id: Seq<char>,
    first_user_text: Option<Seq<char>>,
    i: int,
)
    requires
        0 <= i < names.len(),
        names[i].0 == id,
        forall|j: int| i < j < names.len() ==> (#[trigger] names[j]).0 != id,
    ensures
        codex::index_title(names, id, first_user_text) == (if first_user_text is Some && starts(
            first_user_text->0,
            codex::without_ellipsis(names[i].1),
        ) {
            None
        } else {
            Some(names[i].1)
        }),
    decreases names.len(),
{
    last_name(names, id, i);
}

proof fn last_name(names: Seq<(Seq<char>, Seq<char>)>, id: Seq<char>, i: int)
    requires
        0 <= i < names.len(),
        names[i].0 == id,
        forall|j: int| i < j < names.len() ==> (#[trigger] names[j]).0 != id,
    ensures
        codex::name_of(names, id) == Some(names[i].1),
    decreases names.len(),
{
    if i < names.len() - 1 {
        assert(names[names.len() - 1].0 != id);
        last_name(names.drop_last(), id, i);
    }
}

/// A thread without a name has no title.
pub proof fn an_unnamed_thread_has_no_title(
    names: Seq<(Seq<char>, Seq<char>)>,
    id: Seq<char>,
    first_user_text: Option<Seq<char>>,
)
    requires
        forall|j: int| 0 <= j < names.len() ==> (#[trigger] names[j]).0 != id,
    ensures
        codex::index_title(names, id, first_user_text) is None,
    decreases names.len(),
{
    if names.len() > 0 {
        assert(names[names.len() - 1].0 != id);
        an_unnamed_thread_has_no_title(names.drop_last(), id, first_user_text);
    }
}

/// What stands before the ellipses at the end of a name is kept, and nothing else goes.
pub proof fn only_ellipses_go(s: Seq<char>)
    ensures
        ({
            let t = codex::without_ellipsis(s);
            &&& t.is_prefix_of(s)
            &&& t.len() > 0 ==> t.last() != '…'
            &&& forall|i: int| t.len() <= i < s.len() ==> #[trigger] s[i] == '…'
        }),
    decreases s.len(),
{
    if s.len() > 0 && s.last() == '…' {
        only_ellipses_go(s.drop_last());
        assert forall|i: int| codex::without_ellipsis(s).len() <= i < s.len() implies #[trigger] s[i]
            == '…' by {
            if i < s.len() - 1 {
                assert(s.drop_last()[i] == '…');
            }
        }
    }
}

/// A rollout is found by its name and its content; it is found with the title that the index gives
/// it, where it is a root.
pub proof fn a_rollout_is_found(file: FoundFile, names: Seq<(Seq<char>, Seq<char>)>)
    ensures
        ({
            let facts = codex::RolloutFacts::of(documents(file.data@));
            let id = facts.identity(file.name@);
            let m = codex::discovered(file, names);
            &&& m is Some <==> extension_of(file.name@) == Some("jsonl"@) && starts(
                file.name@,
                "rollout-"@,
            ) && format_of(texts(file.head@), MAX_PARSE_LINES as int) == Some(Agent::Codex)
                && id is Some
            &&& m is Some ==> {
                let bare = codex::member_of(
                    facts,
                    file.name@,
                    file.path@,
                    file.modified.deep_view(),
                    id->0,
                );
                let root = bare.kind == DiscoveredMemberKind::Root || bare.kind
                    == DiscoveredMemberKind::ForkRoot;
                &&& root ==> m->0.native_title == codex::index_title(
                    names,
                    id->0,
                    bare.first_user_text,
                )
                &&& !root ==> m->0.native_title is None
                &&& m->0 == (Member { native_title: m->0.native_title, ..bare })
            }
        }),
{
}

/// An override is handed on in Codex's spelling: the model, then the effort as a setting.
pub proof fn codex_overrides_are_handed_on(opts: ExecOptions)
    ensures
        codex::runtime(opts) == (match opts.model {
            Some(m) => seq!["-m"@, m@],
            None => Seq::empty(),
        }) + (match opts.effort {
            Some(e) => seq!["-c"@, "model_reasoning_effort=\""@ + e@ + "\""@],
            None => Seq::empty(),
        }),
        forall|path: Seq<char>|
            #[trigger] codex::no_identity(path) == "无法解析 Codex session id: "@ + path,
{
}

// ---------------------------------------------------------------------------
// DeepSeek Harness
// ---------------------------------------------------------------------------

/// The prose of content blocks: the texts of its text blocks with a line end between them.
pub open spec fn blocks_say(content: Option<Tree>) -> Seq<char> {
    match content {
        Some(Tree::List(blocks)) => joined(block_texts(blocks, Blocks::Text), "\n"@),
        _ => Seq::empty(),
    }
}

/// A field of the data of a record.
pub open spec fn in_data(v: Tree, key: Seq<char>) -> Option<Tree> {
    match v.field("data"@) {
        Some(d) => d.field(key),
        None => None,
    }
}

proof fn dsh_words_differ()
    ensures
        "user/message"@ != "assistant/message"@,
        "user/message"@ != "session/title"@,
        "assistant/message"@ != "session/title"@,
        "user/message"@ != "tool/call"@,
        "user/message"@ != "tool/result"@,
        "assistant/message"@ != "tool/call"@,
        "assistant/message"@ != "tool/result"@,
{
    reveal_strlit("user/message");
    reveal_strlit("assistant/message");
    reveal_strlit("session/title");
    reveal_strlit("tool/call");
    reveal_strlit("tool/result");
    assert("user/message"@.len() == 12 && "assistant/message"@.len() == 17
        && "session/title"@.len() == 13 && "tool/call"@.len() == 9 && "tool/result"@.len() == 11);
}

/// A record of the user in the transcript of a root, whose prose is neither blank nor context that
/// the harness wrote, is a message, unless another session sent it: then it is one side activity.
/// A record of the assistant with prose is a message, under the provider and the model that made
/// it. Calls of tools, their results and compactions are counted. Nothing else says anything.
pub proof fn what_a_dsh_record_says(v: Tree, is_root: bool)
    ensures
        ({
            let asked = blocks_say(in_data(v, "content"@));
            let told = blocks_say(
                match in_data(v, "message"@) {
                    Some(m) => m.field("content"@),
                    None => None,
                },
            );
            let user = says(v, "type"@, "user/message"@) && !blank(asked) && !starts(asked, "<"@)
                && !starts(asked, "Current runtime context"@);
            let relayed = in_data(v, "source"@) is Some && (in_data(v, "source"@)->0.field(
                "senderSessionId"@,
            ) matches Some(Tree::Text(s)) && s.len() > 0);
            let assistant = says(v, "type"@, "assistant/message"@) && !blank(told);
            let by_model = in_data(v, "message"@) is Some && in_data(v, "message"@)->0.field(
                "source"@,
            ) is Some && says(in_data(v, "message"@)->0.field("source"@)->0, "kind"@, "model"@);
            let source = in_data(v, "message"@)->0.field("source"@)->0;
            let kind = v.text_at("type"@);
            let compacted = kind is Some && starts(kind->0, "compaction/"@) && kind->0
                != "user/message"@ && kind->0 != "assistant/message"@;
            let call = (says(v, "type"@, "tool/call"@) || says(v, "type"@, "tool/result"@))
                && !compacted;
            let id = match v.field("seq"@) {
                Some(Tree::Number(Some(n))) => Some(signed_decimal(n as int)),
                _ => None,
            };
            let l = dsh::line_of(v, is_root);
            &&& l is Some <==> user || assistant || compacted || call
            &&& l is Some ==> (l->0.message is Some <==> is_root && ((user && !relayed)
                || assistant))
            &&& user && relayed ==> counts(l->0.observation, 0, 0, 1)
            &&& user && !relayed ==> counts(l->0.observation, 0, 0, 0)
            &&& assistant ==> counts(l->0.observation, 0, 0, 0)
            &&& compacted ==> counts(l->0.observation, 0, 1, 0)
            &&& call ==> counts(l->0.observation, 1, 0, 0)
            &&& user && !relayed && is_root ==> bare(
                l->0.message->0,
                id,
                SessionMessageRole::User,
                asked,
            ) && l->0.message->0.provider is None && l->0.message->0.model is None
            &&& assistant && is_root ==> bare(
                l->0.message->0,
                id,
                SessionMessageRole::Assistant,
                told,
            )
            &&& assistant && is_root && by_model ==> l->0.message->0.provider == source.text_at(
                "provider"@,
            ) && l->0.message->0.model == source.text_at("model"@)
            &&& assistant && is_root && !by_model ==> l->0.message->0.provider is None
                && l->0.message->0.model is None
        }),
{
    dsh_words_differ();
}

/// Records are read each on its own and in order: a message that is not blank is added at the end,
/// with its time and the number of its record, and what is counted is added up.
pub proof fn one_more_dsh_record_is_read(records: Seq<Tree>, v: Tree, is_root: bool)
    ensures
        ({
            let before = dsh::read_of(records, is_root);
            let after = dsh::read_of(records.push(v), is_root);
            let l = dsh::line_of(v, is_root);
            let told = l is Some && l->0.message is Some && !blank(l->0.message->0.content);
            &&& !told ==> after.0 == before.0
            &&& told ==> {
                let m = l->0.message->0;
                &&& after.0.len() == before.0.len() + 1
                &&& forall|i: int| 0 <= i < before.0.len() ==> #[trigger] after.0[i] == before.0[i]
                &&& after.0.last().content == m.content
                &&& after.0.last().role == m.role
                &&& after.0.last().source_message_id == m.source_message_id
                &&& after.0.last().provider == m.provider
                &&& after.0.last().model == m.model
                &&& m.ts is None ==> after.0.last().ts == (match v.field("time"@) {
                    Some(Tree::Number(Some(ms))) => rfc3339_of_millis(ms),
                    _ => None,
                })
                &&& m.source_position.len() == 0 && m.source_message_id is Some
                    ==> after.0.last().source_position == "seq:"@ + m.source_message_id->0
            }
            &&& l is None ==> after.1 == before.1
            &&& l is Some ==> after.1 == before.1.plus(l->0.observation)
        }),
        dsh::read_of(Seq::empty(), is_root).0.len() == 0,
        counts(dsh::read_of(Seq::empty(), is_root).1, 0, 0, 0),
{
    assert(records.push(v).drop_last() =~= records);
}

/// A transcript begins with its header or is refused; then the first words of the user and of the
/// assistant count, and of its titles the last that the harness did not cut out itself.
pub proof fn one_more_dsh_record(records: Seq<Tree>, v: Tree)
    ensures
        ({
            let before = dsh::TranscriptFacts::of(records);
            let after = dsh::TranscriptFacts::of(records.push(v));
            let asked = blocks_say(in_data(v, "content"@));
            let told = blocks_say(
                match in_data(v, "message"@) {
                    Some(m) => m.field("content"@),
                    None => None,
                },
            );
            let header = says(v, "type"@, "session"@) && v.text_at("id"@) is Some && (v.field(
                "createdAt"@,
            ) matches Some(c) && c is Number);
            let open = !before.refused && before.header is Some;
            let relayed = in_data(v, "source"@) is Some && in_data(v, "source"@)->0.field(
                "senderSessionId"@,
            ) is Some;
            let u = open && says(v, "type"@, "user/message"@) && !blank(asked) && !starts(
                asked,
                "<"@,
            ) && !starts(asked, "Current runtime context"@) && !starts(asked, "## Task context"@)
                && !relayed;
            let a = open && says(v, "type"@, "assistant/message"@) && !blank(told);
            let cut = in_data(v, "source"@) is Some && says(
                in_data(v, "source"@)->0,
                "kind"@,
                "fallback"@,
            );
            let t = open && says(v, "type"@, "session/title"@) && !cut && (in_data(v, "title"@)
                matches Some(Tree::Text(s)) && !blank(s));
            &&& before.refused ==> after == before
            &&& !before.refused && before.header is None ==> (after.refused <==> !header) && (
            header ==> after.header == Some(v)) && (!header ==> after.header is None)
            &&& open ==> after.header == before.header && !after.refused
            &&& after.first_user_text == (if before.first_user_text is None && u {
                Some(shortened(asked, 400))
            } else {
                before.first_user_text
            })
            &&& after.first_agent_text == (if before.first_agent_text is None && a {
                Some(shortened(told, 400))
            } else {
                before.first_agent_text
            })
            &&& t ==> in_data(v, "title"@) == Some(Tree::Text(after.native_title->0))
                && after.native_title is Some
            &&& !t ==> after.native_title == before.native_title
        }),
        ({
            let none = dsh::TranscriptFacts::of(Seq::empty());
            !none.refused && none.header is None && none.native_title is None
                && none.first_user_text is None && none.first_agent_text is None
        }),
{
    dsh_words_differ();
    assert(records.push(v).drop_last() =~= records);
}

/// A transcript with a header is a member that goes by the header's id; one whose header names a
/// parent is its child and carries no words, any other is a root.
pub proof fn a_dsh_transcript_is_found(file: FoundFile, records: Seq<Tree>)
    ensures
        ({
            let facts = dsh::TranscriptFacts::of(records);
            let m = dsh::member_with(file, records);
            let h = facts.header->0;
            let parent = solid_text_at(h, "parentSession"@);
            &&& m is Some <==> facts.header is Some
            &&& m is Some ==> {
                &&& m->0.agent == Agent::Dsh
                &&& h.text_at("id"@) is Some ==> m->0.source_member_id == h.text_at("id"@)->0
                &&& parent is Some ==> m->0.kind == DiscoveredMemberKind::Child
                    && m->0.native_title is None && m->0.first_user_text is None
                    && m->0.first_agent_text is None
                &&& parent is None ==> m->0.kind == DiscoveredMemberKind::Root
                    && m->0.native_title == facts.native_title && m->0.first_user_text
                    == facts.first_user_text && m->0.first_agent_text == facts.first_agent_text
                &&& m->0.parent_source_member_id == parent
                &&& m->0.root_hint == parent
                &&& m->0.source_kind == "dsh_zstd_transcript"@
                &&& m->0.source_path == file.path@
                &&& m->0.cwd == solid_text_at(h, "cwd"@)
                &&& m->0.started_at == (match h.whole_at("createdAt"@) {
                    Some(ms) => rfc3339_of_millis(ms),
                    None => None,
                })
                &&& m->0.last_activity_at == file.modified.deep_view()
            }
        }),
        dsh::discovered(file) == dsh::member_with(
            file,
            records_in(dsh::decoded_lines(zstd_decoded(file.data@))),
        ),
{
}

/// The transcript of a directory is that of its latest generation.
pub proof fn the_latest_generation_is_read(names: Seq<Seq<char>>, i: int, j: int)
    requires
        dsh::is_newest(names, i),
        0 <= j < names.len(),
        names[j] == "session.v2.jsonl.zstd"@,
    ensures
        names[i] == "session.v2.jsonl.zstd"@,
{
    if names[i] != "session.v2.jsonl.zstd"@ {
        assert(i != j);
        assert(dsh::generation_named(names[j]) == Some(2u8));
    }
}

/// Generations go by the name of the file, later ones are higher, and no other file has one.
pub proof fn generations_go_by_name(name: Seq<char>)
    ensures
        dsh::generation_named(name) is Some <==> name == "session.v2.jsonl.zstd"@ || name
            == "session.v1.jsonl.zstd"@ || name == "session.jsonl.zstd"@,
        dsh::generation_named("session.v2.jsonl.zstd"@) == Some(2u8),
        dsh::generation_named("session.v1.jsonl.zstd"@) == Some(1u8),
        dsh::generation_named("session.jsonl.zstd"@) == Some(0u8),
{
    reveal_strlit("session.v2.jsonl.zstd");
    reveal_strlit("session.v1.jsonl.zstd");
    reveal_strlit("session.jsonl.zstd");
    assert("session.v2.jsonl.zstd"@[9] != "session.v1.jsonl.zstd"@[9]);
    assert("session.v2.jsonl.zstd"@.len() != "session.jsonl.zstd"@.len());
    assert("session.v1.jsonl.zstd"@.len() != "session.jsonl.zstd"@.len());
}

/// The lines of some bytes are cut at the line ends, each read by itself.
pub proof fn bytes_are_cut_at_line_ends(line: Seq<u8>, rest: Seq<u8>)
    requires
        forall|i: int| 0 <= i < line.len() ==> #[trigger] line[i] != 10,
    ensures
        dsh::decoded_lines(line + seq![10u8] + rest) == seq![lossy_text(line)]
            + dsh::decoded_lines(rest),
        line.len() > 0 ==> dsh::decoded_lines(line) == seq![lossy_text(line)],
        dsh::decoded_lines(Seq::empty()).len() == 0,
{
    let data = line + seq![10u8] + rest;
    the_line_ends_there(line, seq![10u8] + rest);
    assert(line + (seq![10u8] + rest) =~= data);
    the_line_ends_there(line, Seq::empty());
    assert(line + Seq::<u8>::empty() =~= line);
    assert(data.take(line.len() as int) =~= line);
    assert(data.skip(line.len() as int + 1) =~= rest);
}

proof fn the_line_ends_there(line: Seq<u8>, rest: Seq<u8>)
    requires
        forall|i: int| 0 <= i < line.len() ==> #[trigger] line[i] != 10,
        rest.len() > 0 ==> rest[0] == 10,
    ensures
        dsh::line_end(line + rest) == line.len(),
    decreases line.len(),
{
    let data = line + rest;
    if line.len() == 0 {
        assert(data =~= rest);
    } else {
        assert(data[0] == line[0]);
        let less = line.drop_first();
        assert forall|i: int| 0 <= i < less.len() implies #[trigger] less[i] != 10 by {
            assert(line[i + 1] != 10);
        }
        the_line_ends_there(less, rest);
        assert(data.drop_first() =~= less + rest);
    }
}

} // verus!
