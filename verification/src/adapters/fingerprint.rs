//! Which agent wrote a file, told from its content.
use crate::domain::Agent;
use crate::json::{parse, parsed, Json, Tree};
use crate::text::{texts, trim, trimmed};
use vstd::prelude::*;

verus! {

/// How many documents of a file are looked at before it counts as nobody's.
pub const MAX_PARSE_LINES: usize = 10;

/// The document's `type` is `name`.
pub open spec fn typed(v: Tree, name: Seq<char>) -> bool {
    v.text_at("type"@) == Some(name)
}

/// Codex: every line is an envelope of an ordinal, a payload object and a type.
pub open spec fn codex_envelope(v: Tree) -> bool {
    &&& v.has("ordinal"@)
    &&& v.field("payload"@) matches Some(p) && p is Object
    &&& v.has("type"@)
}

/// Qoder: one of the bookkeeping lines that only it writes.
pub open spec fn qoder_bookkeeping(v: Tree) -> bool {
    ||| typed(v, "workspace-directories"@)
    ||| typed(v, "runtime-config"@)
    ||| typed(v, "worktree-state"@)
    ||| typed(v, "active-leaf"@)
    ||| typed(v, "last-prompt"@)
}

/// `claude_code`: a link of its event chain.
pub open spec fn claude_event(v: Tree) -> bool {
    v.has("sessionId"@) && (v.has("parentUuid"@) || v.has("uuid"@))
}

/// WorkBuddy: one of its bookkeeping lines, or a message whose parts stand at the top level.
pub open spec fn workbuddy_line(v: Tree) -> bool {
    ||| typed(v, "ai-title"@)
    ||| typed(v, "file-history-snapshot"@)
    ||| typed(v, "message"@) && v.has("role"@) && v.items_at("content"@) is Some
}

/// Pi: a session header, or an event with a parent and one of its own fields.
pub open spec fn pi_line(v: Tree) -> bool {
    ||| typed(v, "session"@) && v.has("id"@)
    ||| v.has("parentId"@) && (v.has("provider"@) || v.has("modelId"@) || v.has("thinkingLevel"@))
}

/// The agent that wrote a line, where the line tells. Qoder's transcript holds `claude_code`'s
/// lines besides its own, so its own are looked for first.
pub open spec fn writer_of(v: Tree) -> Option<Agent> {
    if !(v is Object) {
        None
    } else if codex_envelope(v) {
        Some(Agent::Codex)
    } else if qoder_bookkeeping(v) {
        Some(Agent::Qoder)
    } else if claude_event(v) {
        Some(Agent::ClaudeCode)
    } else if workbuddy_line(v) {
        Some(Agent::WorkBuddy)
    } else if pi_line(v) {
        Some(Agent::Pi)
    } else {
        None
    }
}

/// The agent that wrote a line, where the line tells.
pub fn fingerprint_line(v: &Json) -> (r: Option<Agent>)
    ensures
        r == writer_of(v.tree()),
{
    if !v.is_object() {
        return None;
    }
    let payload_is_object: bool = match v.get("payload") {
        Some(p) => p.is_object(),
        None => false,
    };
    if v.has("ordinal") && payload_is_object && v.has("type") {
        return Some(Agent::Codex);
    }
    if v.text_is("type", "workspace-directories") || v.text_is("type", "runtime-config")
        || v.text_is("type", "worktree-state") || v.text_is("type", "active-leaf") || v.text_is(
        "type",
        "last-prompt",
    ) {
        return Some(Agent::Qoder);
    }
    if v.has("sessionId") && (v.has("parentUuid") || v.has("uuid")) {
        return Some(Agent::ClaudeCode);
    }
    if v.text_is("type", "ai-title") || v.text_is("type", "file-history-snapshot") {
        return Some(Agent::WorkBuddy);
    }
    if v.text_is("type", "message") && v.has("role") && v.items_at("content").is_some() {
        return Some(Agent::WorkBuddy);
    }
    if v.text_is("type", "session") && v.has("id") {
        return Some(Agent::Pi);
    }
    if v.has("parentId") && (v.has("provider") || v.has("modelId") || v.has("thinkingLevel")) {
        return Some(Agent::Pi);
    }
    None
}

/// The agent that wrote a file of these lines, with `budget` documents left to look at.
pub open spec fn format_of(ls: Seq<Seq<char>>, budget: int) -> Option<Agent>
    decreases ls.len(),
{
    if ls.len() == 0 || budget <= 0 {
        None
    } else {
        match parsed(trimmed(ls[0])) {
            Some(v) if trimmed(ls[0]).len() > 0 => match writer_of(v) {
                Some(agent) => Some(agent),
                None => format_of(ls.drop_first(), budget - 1),
            },
            _ => format_of(ls.drop_first(), budget),
        }
    }
}

/// The agent that wrote a file, told from the documents at its head. `None` where no line
/// tells: such a file is left unclaimed.
pub fn detect_format(ls: &Vec<String>) -> (r: Option<Agent>)
    ensures
        r == format_of(texts(ls@), MAX_PARSE_LINES as int),
{
    let ghost all = texts(ls@);
    let mut looked_at: usize = 0;
    let mut i: usize = 0;
    assert(all.skip(0) =~= all);
    while i < ls.len()
        invariant
            i <= ls@.len(),
            all == texts(ls@),
            looked_at <= MAX_PARSE_LINES,
            format_of(all, MAX_PARSE_LINES as int) == format_of(
                all.skip(i as int),
                MAX_PARSE_LINES - looked_at,
            ),
        decreases ls@.len() - i,
    {
        assert(all.skip(i as int).drop_first() =~= all.skip(i + 1));
        assert(all.skip(i as int)[0] == ls@[i as int]@);
        if looked_at == MAX_PARSE_LINES {
            return None;
        }
        let t = trim(ls[i].as_str());
        i = i + 1;
        if t.as_str().is_empty() {
            continue;
        }
        match parse(t.as_str()) {
            Some(v) => {
                looked_at = looked_at + 1;
                match fingerprint_line(&v) {
                    Some(agent) => {
                        return Some(agent);
                    },
                    None => {},
                }
            },
            None => {},
        }
    }
    None
}

/// Every line that Qoder alone writes makes a file Qoder's, whatever else the line holds, as
/// long as it is not a Codex envelope.
pub proof fn qoder_is_claimed_before_claude(v: Tree)
    requires
        v is Object,
        qoder_bookkeeping(v),
        !codex_envelope(v),
    ensures
        writer_of(v) == Some(Agent::Qoder),
{
}

/// A file is claimed by the first line that tells its writer.
pub proof fn the_first_telling_line_decides(
    head: Seq<Seq<char>>,
    line: Seq<char>,
    rest: Seq<Seq<char>>,
    budget: int,
)
    requires
        head.len() < budget,
        trimmed(line).len() > 0,
        parsed(trimmed(line)) matches Some(v) && writer_of(v) is Some,
        forall|i: int|
            0 <= i < head.len() ==> match parsed(trimmed(#[trigger] head[i])) {
                Some(v) => writer_of(v) is None,
                None => true,
            },
    ensures
        format_of(head + seq![line] + rest, budget) == writer_of(parsed(trimmed(line))->0),
    decreases head.len(),
{
    let all = head + seq![line] + rest;
    if head.len() == 0 {
        assert(all[0] == line);
    } else {
        assert(all[0] == head[0]);
        assert(all.drop_first() =~= head.drop_first() + seq![line] + rest);
        assert forall|i: int| 0 <= i < head.drop_first().len() implies match parsed(
            trimmed(#[trigger] head.drop_first()[i]),
        ) {
            Some(v) => writer_of(v) is None,
            None => true,
        } by {
            assert(head.drop_first()[i] == head[i + 1]);
        }
        the_first_telling_line_decides(head.drop_first(), line, rest, budget - 1);
        the_first_telling_line_decides(head.drop_first(), line, rest, budget);
    }
}

} // verus!
