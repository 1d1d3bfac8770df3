//! Contexts: what is shown of them, and how they are updated.
//!
//! Reading a context never scans a source and never asks a model. An update asks a model at most
//! once, then checks the answer and writes everything together, provided that nothing it was
//! based on has changed meanwhile. A failed call or a useless answer changes nothing.
pub mod diagnostics;
pub mod launch;
pub mod laws;
pub mod parts;
pub mod promises;
pub mod select;
pub mod session;
pub mod telling;
pub mod views;
pub mod workstream;

pub use views::{
    resolve_core_context, session_context_view, workstream_context_view, ContextSection,
    SessionContextView, WorkstreamContextView,
};
pub use launch::{ContextLaunchConfig, ContextUpdateStatus};
pub use session::{
    commit_session_update, finish_session_update, update_session, SessionStep,
    SessionUpdateOutcome,
};
pub use workstream::{
    commit_workstream_update, finish_workstream_update, update_workstream, WorkstreamStep,
    WorkstreamUpdateOutcome,
};
