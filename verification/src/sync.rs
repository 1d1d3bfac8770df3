//! What goes to a model and what comes back.
use crate::domain::SessionMessageRole;
use crate::store::{Fields, SessionContextFields, SessionMessage};
use crate::text::texts;
use vstd::prelude::*;

verus! {

/// A change that a model proposes.
pub enum ContextMutation {
    Add {
        workstream_id: String,
        item_kind: String,
        title: String,
        content: String,
        source_refs: Vec<String>,
        authority: String,
    },
    Update {
        item_id: String,
        title: String,
        content: String,
        source_refs: Vec<String>,
        authority: String,
    },
    Supersede {
        item_id: String,
        title: String,
        content: String,
        source_refs: Vec<String>,
        authority: String,
    },
    Resolve { item_id: String, source_refs: Vec<String> },
    CreateWorkstream { title: String, reason: String },
    Conflict {
        workstream_id: String,
        item_id: String,
        title: String,
        content: String,
        source_refs: Vec<String>,
    },
}

/// A short name that a prompt gives to a message.
pub struct PromptMessageRef {
    pub short_ref: String,
    pub message_id: String,
    pub sequence: i64,
    pub role: SessionMessageRole,
}

/// A session as a prompt shows it.
pub struct PromptSession {
    pub session_id: String,
    pub is_target: bool,
    pub existing: Option<SessionContextFields>,
    pub existing_revision: Option<i64>,
    pub messages: Vec<SessionMessage>,
}

/// A session as a prompt shows it, as a mathematical value.
pub struct Shown {
    pub session_id: Seq<char>,
    pub is_target: bool,
    pub existing: Option<Fields>,
    pub existing_revision: Option<i64>,
    pub messages: Seq<SessionMessage>,
}

impl DeepView for PromptSession {
    type V = Shown;

    open spec fn deep_view(&self) -> Shown {
        Shown {
            session_id: self.session_id@,
            is_target: self.is_target,
            existing: self.existing.deep_view(),
            existing_revision: self.existing_revision,
            messages: self.messages@,
        }
    }
}

/// What a prompt is made of.
pub struct PromptInput {
    pub workstream_title: String,
    pub workstream_description: String,
    pub item_lines: Vec<String>,
    pub sessions: Vec<PromptSession>,
    pub messages: Vec<SessionMessage>,
}

/// What a prompt is made of, as a mathematical value.
pub struct Input {
    pub workstream_title: Seq<char>,
    pub workstream_description: Seq<char>,
    pub item_lines: Seq<Seq<char>>,
    pub sessions: Seq<Shown>,
    pub messages: Seq<SessionMessage>,
}

impl DeepView for PromptInput {
    type V = Input;

    open spec fn deep_view(&self) -> Input {
        Input {
            workstream_title: self.workstream_title@,
            workstream_description: self.workstream_description@,
            item_lines: texts(self.item_lines@),
            sessions: self.sessions.deep_view(),
            messages: self.messages@,
        }
    }
}

/// A prompt, and the short names in it.
pub struct Prompt {
    pub text: String,
    pub refs: Vec<PromptMessageRef>,
}

/// How many bytes a request may take, and how many of them are kept free for the answer: for the
/// workstream, and for each session that is asked about.
pub struct InputLimits {
    pub input_limit: usize,
    pub session_reserve: usize,
    pub workstream_reserve: usize,
}

/// A summary that a model wrote.
pub struct SessionContextDraft {
    pub session_id: String,
    pub fields: SessionContextFields,
}

/// A summary that a model wrote, as a mathematical value.
pub struct Draft {
    pub session_id: Seq<char>,
    pub fields: Fields,
}

impl DeepView for SessionContextDraft {
    type V = Draft;

    open spec fn deep_view(&self) -> Draft {
        Draft { session_id: self.session_id@, fields: self.fields.deep_view() }
    }
}

/// What a model answered: summaries of sessions and changes of the workstream.
pub struct ContextUpdateOutput {
    pub session_contexts: Vec<SessionContextDraft>,
    pub workstream_mutations: Vec<ContextMutation>,
}

/// How a call of an agent's CLI can fail.
#[derive(Clone, Copy, Debug, PartialEq, Eq, Structural)]
pub enum ContextCallFailureKind {
    AgentUnavailable,
    UnsupportedAgent,
    CommandInvalid,
    Start,
    Wait,
    Exit,
    Timeout,
}

/// A failed call of an agent's CLI.
pub struct ContextCallFailure {
    pub kind: ContextCallFailureKind,
    pub spawned: bool,
    pub exit_code: Option<i32>,
    pub io_error_kind: Option<&'static str>,
}

} // verus!
