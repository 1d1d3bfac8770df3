//! NoEnding: the rules of a local workspace shared by several coding agents.
//!
//! Every agent keeps its own transcripts in its own format. This library reads
//! those formats, decides what is conversation and what is machinery, tracks how
//! far each source has been consumed, and plans the updates of the two kinds of
//! context that grow out of a conversation: the context of one session and the
//! context of a workstream.
pub mod text;
pub mod json;
pub mod domain;
pub mod bytes;
pub mod time;
pub mod adapters;
pub mod error;
pub mod paths;
pub mod store;
pub mod agent_runtime;
pub mod assistant;
pub mod sync;
pub mod commands;
pub mod context;
pub mod context_eval;
