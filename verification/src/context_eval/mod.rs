//! Measuring how well contexts are extracted, over a corpus of recorded conversations.
//!
//! Each fixture serves two layers. The first takes a recorded answer of a model and asks for the
//! exact state that follows from it. The second runs an extractor and asks for named checks: what
//! must be found, what must not, and what state must come out. The checks that an extractor is
//! known to fail are a baseline: the set of failed checks has to be equal to it, so that neither a
//! regression nor an improvement goes unnoticed.
pub mod cli;
pub mod corpus;
pub mod evaluator;
pub mod fixture;
pub mod gold;
pub mod laws;
pub mod proposal;
pub mod reports;
pub mod states;

pub use corpus::{
    load_fixture, ContextItemExpectation, ContextQualityFixture, ExpectedCoreItem,
    ExpectedMutation, ExtractorGold, FixtureEvent, FixtureGold, FixtureInitialItem, FixtureInput,
    FixtureSession, FixtureWorkstream, ItemStatusExpectation, StructuralMutationExpectation,
};
pub use evaluator::{BaselineDiff, CheckResult, EvalCaseResult, EvalReport};
pub use fixture::{setup_fixture, FixtureEnv};
pub use gold::{evaluate_extractor, run_domain_golden, CONFLICTS_CHECK_ID};
