//! What can go wrong.
use vstd::prelude::*;

verus! {

/// Why an update of a context was not made.
pub enum ContextUpdateError {
    AiUnavailable(String),
    ModelCallFailed(String),
    InvalidOutput(String),
    ConcurrencyConflict(String),
    InputTooLarge(String),
    Storage(String),
}

/// A failed update as it is told to people: without what the model or the database said.
pub struct ContextUpdateFailure {
    pub code: String,
    pub message: String,
    pub operation_id: String,
}

/// Anything that can go wrong.
pub enum AppError {
    Io(String),
    Db(String),
    Json(String),
    Other(String),
    Context(ContextUpdateError),
    ContextUpdateFailed(ContextUpdateFailure),
}

/// A failed update of a context, as a mathematical value.
pub enum ContextFault {
    AiUnavailable(Seq<char>),
    ModelCallFailed(Seq<char>),
    InvalidOutput(Seq<char>),
    ConcurrencyConflict(Seq<char>),
    InputTooLarge(Seq<char>),
    Storage(Seq<char>),
}

/// A failure, as a mathematical value.
pub enum Fault {
    Io(Seq<char>),
    Db(Seq<char>),
    Json(Seq<char>),
    Other(Seq<char>),
    Context(ContextFault),
    ContextUpdateFailed { code: Seq<char>, message: Seq<char>, operation_id: Seq<char> },
}

impl DeepView for ContextUpdateError {
    type V = ContextFault;

    open spec fn deep_view(&self) -> ContextFault {
        match *self {
            ContextUpdateError::AiUnavailable(s) => ContextFault::AiUnavailable(s@),
            ContextUpdateError::ModelCallFailed(s) => ContextFault::ModelCallFailed(s@),
            ContextUpdateError::InvalidOutput(s) => ContextFault::InvalidOutput(s@),
            ContextUpdateError::ConcurrencyConflict(s) => ContextFault::ConcurrencyConflict(s@),
            ContextUpdateError::InputTooLarge(s) => ContextFault::InputTooLarge(s@),
            ContextUpdateError::Storage(s) => ContextFault::Storage(s@),
        }
    }
}

impl DeepView for AppError {
    type V = Fault;

    open spec fn deep_view(&self) -> Fault {
        match *self {
            AppError::Io(s) => Fault::Io(s@),
            AppError::Db(s) => Fault::Db(s@),
            AppError::Json(s) => Fault::Json(s@),
            AppError::Other(s) => Fault::Other(s@),
            AppError::Context(e) => Fault::Context(e.deep_view()),
            AppError::ContextUpdateFailed(f) => Fault::ContextUpdateFailed {
                code: f.code@,
                message: f.message@,
                operation_id: f.operation_id@,
            },
        }
    }
}

/// A failure that is told in words.
pub fn other(message: &str) -> (e: AppError)
    ensures
        e.deep_view() == Fault::Other(message@),
{
    AppError::Other(message.to_owned())
}

impl AppError {
    /// What the failure says.
    pub open spec fn told(self) -> Seq<char> {
        match self {
            AppError::Io(s) => s@,
            AppError::Db(s) => s@,
            AppError::Json(s) => s@,
            AppError::Other(s) => s@,
            AppError::Context(ContextUpdateError::AiUnavailable(s)) => s@,
            AppError::Context(ContextUpdateError::ModelCallFailed(s)) => s@,
            AppError::Context(ContextUpdateError::InvalidOutput(s)) => s@,
            AppError::Context(ContextUpdateError::ConcurrencyConflict(s)) => s@,
            AppError::Context(ContextUpdateError::InputTooLarge(s)) => s@,
            AppError::Context(ContextUpdateError::Storage(s)) => s@,
            AppError::ContextUpdateFailed(f) => f.message@,
        }
    }

    /// What the failure says.
    pub fn message(&self) -> (r: &str)
        ensures
            r@ == self.told(),
    {
        match self {
            AppError::Io(s) => s.as_str(),
            AppError::Db(s) => s.as_str(),
            AppError::Json(s) => s.as_str(),
            AppError::Other(s) => s.as_str(),
            AppError::Context(ContextUpdateError::AiUnavailable(s)) => s.as_str(),
            AppError::Context(ContextUpdateError::ModelCallFailed(s)) => s.as_str(),
            AppError::Context(ContextUpdateError::InvalidOutput(s)) => s.as_str(),
            AppError::Context(ContextUpdateError::ConcurrencyConflict(s)) => s.as_str(),
            AppError::Context(ContextUpdateError::InputTooLarge(s)) => s.as_str(),
            AppError::Context(ContextUpdateError::Storage(s)) => s.as_str(),
            AppError::ContextUpdateFailed(f) => f.message.as_str(),
        }
    }
}

/// A failure says what it was made with, whichever sort it is.
pub proof fn a_failure_says_its_text(s: String, f: ContextUpdateFailure)
    ensures
        AppError::Io(s).told() == s@,
        AppError::Db(s).told() == s@,
        AppError::Json(s).told() == s@,
        AppError::Other(s).told() == s@,
        AppError::Context(ContextUpdateError::AiUnavailable(s)).told() == s@,
        AppError::Context(ContextUpdateError::ModelCallFailed(s)).told() == s@,
        AppError::Context(ContextUpdateError::InvalidOutput(s)).told() == s@,
        AppError::Context(ContextUpdateError::ConcurrencyConflict(s)).told() == s@,
        AppError::Context(ContextUpdateError::InputTooLarge(s)).told() == s@,
        AppError::Context(ContextUpdateError::Storage(s)).told() == s@,
        AppError::ContextUpdateFailed(f).told() == f.message@,
{
}

} // verus!
