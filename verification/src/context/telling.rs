//! What is noted of an update and what people are told of it.
use crate::context::diagnostics::{call_told, is_old_log, recorded_agent, safe, ContextOperation};
use crate::context::launch::{
    configured, launch_fault, moved, name_means, noted, outcome_name, ContextLaunchConfig,
    ContextUpdateStatus,
};
use crate::domain::Agent;
use crate::error::{AppError, ContextUpdateError};
use crate::sync::ContextCallFailureKind;
use crate::time::day_of;
use vstd::prelude::*;

verus! {

/// An agent is asked where one was chosen, is known and is set up as it can be. Otherwise people
/// are told the first of these that is missing.
pub proof fn when_no_agent_can_be_asked(launch: ContextLaunchConfig)
    ensures
        launch_fault(launch) is None <==> launch.raw_agent@ != "none"@ && launch.agent is Some
            && launch.opts is Some,
        launch.raw_agent@ == "none"@ ==> (launch_fault(launch) matches Some((code, message, text))
            && code == "agent_not_configured"@ && text == "未选择 Context Agent"@ && message
            == "未选择 Context Agent，请在 Assistant 设置中选择 Codex、"@
            + Agent::ClaudeCode.shown() + " 或 Pi。"@),
        launch.raw_agent@ != "none"@ && launch.agent is None ==> launch_fault(launch) == Some(
            (
                "agent_configuration_invalid"@,
                "Assistant Agent 配置无效，请重新选择 Agent。"@,
                "Assistant Agent 配置无效"@,
            ),
        ),
        launch.raw_agent@ != "none"@ && launch.agent is Some && launch.opts is None
            ==> launch_fault(launch) == Some(
            (
                "runtime_configuration_invalid"@,
                "Agent Runtime 配置无效，请检查 Settings → Agent。"@,
                "Agent Runtime 配置不可用"@,
            ),
        ),
{
}

/// A name means the agent that goes by it, and no agent where none does.
pub proof fn what_a_name_means(name: Seq<char>, a: Agent, b: Agent)
    ensures
        name_means(name, Some(a)) <==> a.name() == name,
        name_means(name, None) ==> a.name() != name,
        name_means(name, Some(a)) && name_means(name, Some(b)) ==> a == b,
{
    if a.name() == b.name() {
        crate::domain::agent_names_are_distinct(a, b);
    }
}

/// All of an update but what is noted of its stage, its agent, its call and its failure.
pub open spec fn same_update(a: ContextOperation, b: ContextOperation) -> bool {
    &&& a.operation_id == b.operation_id
    &&& a.target_type == b.target_type
    &&& a.target_id == b.target_id
    &&& a.home == b.home
}

/// Noting a failure, a stage or a configuration changes only that.
pub proof fn what_is_noted(
    was: ContextOperation,
    is: ContextOperation,
    launch: ContextLaunchConfig,
    stage: Seq<char>,
    code: Seq<char>,
    message: Seq<char>,
)
    ensures
        noted(was, is, stage, code, message) ==> {
            &&& same_update(was, is)
            &&& is.stage@ == stage
            &&& is.failure matches Some((c, m)) && c@ == code && m@ == message
            &&& is.agent == was.agent
            &&& is.model_override == was.model_override
            &&& is.cli_invoked == was.cli_invoked
            &&& is.cli_exit_code == was.cli_exit_code
            &&& is.cli_start_error == was.cli_start_error
        },
        moved(was, is, stage) ==> {
            &&& same_update(was, is)
            &&& is.stage@ == stage
            &&& is.failure == was.failure
            &&& is.agent == was.agent
            &&& is.model_override == was.model_override
            &&& is.cli_invoked == was.cli_invoked
            &&& is.cli_exit_code == was.cli_exit_code
            &&& is.cli_start_error == was.cli_start_error
        },
        configured(was, launch, is) ==> {
            &&& same_update(was, is)
            &&& is.stage == was.stage
            &&& is.failure == was.failure
            &&& is.cli_invoked == was.cli_invoked
            &&& is.cli_exit_code == was.cli_exit_code
            &&& is.cli_start_error == was.cli_start_error
            &&& is.agent matches Some(name) && name@ == recorded_agent(
                launch.raw_agent@,
                launch.agent,
            )
            &&& launch.opts is None ==> is.model_override == was.model_override
            &&& launch.opts matches Some(o) ==> (is.model_override matches Some(s) && s@
                == o.summary())
        },
{
}

/// A record names the agent that is known, that none was chosen, or that what was chosen is none.
pub proof fn which_agent_is_noted(raw: Seq<char>, a: Agent)
    ensures
        recorded_agent(raw, Some(a)) == a.name(),
        raw == "none"@ ==> recorded_agent(raw, None) == "none"@,
        raw != "none"@ ==> recorded_agent(raw, None) == "invalid"@,
{
}

/// What is written down of an update is what was noted of it, where there is a place for it.
pub proof fn what_is_written_down(
    o: ContextOperation,
    outcome: &'static str,
    code: Option<&'static str>,
    message: Option<String>,
)
    ensures
        o.recorded(outcome, code, message) is Some <==> o.home is Some,
        o.recorded(outcome, code, message) matches Some(r) ==> {
            &&& r.operation_id == o.operation_id
            &&& r.operation_type == o.target_type
            &&& r.target_id == o.target_id
            &&& r.agent == o.agent
            &&& r.model_override == o.model_override
            &&& r.cli_invoked == o.cli_invoked
            &&& r.cli_exit_code == o.cli_exit_code
            &&& r.cli_start_error == o.cli_start_error
            &&& r.stage == o.stage
            &&& r.outcome == outcome
            &&& r.error_code == code
            &&& r.message == message
        },
        outcome_name(ContextUpdateStatus::NoChange) == "no_change"@,
        outcome_name(ContextUpdateStatus::Partial) == "partial"@,
        outcome_name(ContextUpdateStatus::Updated) == "updated"@,
{
}

/// What was noted of a failure is told; where nothing was, what the sort of the failure allows.
pub proof fn what_is_told_of_a_failure(o: ContextOperation, error: AppError, text: String)
    ensures
        o.failure matches Some((code, message)) ==> o.told(error) == (code@, message@),
        o.failure is None ==> o.told(error) == safe(error, o.stage@),
        safe(AppError::Context(ContextUpdateError::AiUnavailable(text)), o.stage@).0
            == "ai_unavailable"@,
        safe(AppError::Context(ContextUpdateError::ModelCallFailed(text)), o.stage@).0
            == "model_call_failed"@,
        safe(AppError::Context(ContextUpdateError::InvalidOutput(text)), o.stage@).0
            == "invalid_output"@,
        safe(AppError::Context(ContextUpdateError::ConcurrencyConflict(text)), o.stage@).0
            == "stale_snapshot"@,
        safe(AppError::Context(ContextUpdateError::InputTooLarge(text)), o.stage@).0
            == "input_too_large"@,
        safe(AppError::Context(ContextUpdateError::Storage(text)), o.stage@).0
            == "storage_failed"@,
        safe(AppError::Io(text), o.stage@).0 == "io_failed"@,
        safe(AppError::Db(text), o.stage@).0 == "storage_failed"@,
        safe(AppError::Json(text), o.stage@).0 == "storage_failed"@,
        o.stage@ == "database_commit"@ ==> safe(AppError::Other(text), o.stage@).0
            == "storage_failed"@,
        o.stage@ == "snapshot"@ ==> safe(AppError::Other(text), o.stage@).0
            == "target_unavailable"@,
        o.stage@ != "database_commit"@ && o.stage@ != "snapshot"@ ==> safe(
            AppError::Other(text),
            o.stage@,
        ).0 == "update_failed"@,
{
    reveal_strlit("database_commit");
    reveal_strlit("snapshot");
    assert("database_commit"@.len() != "snapshot"@.len());
}

/// Each sort of failed call has its own code.
pub proof fn what_is_told_of_a_call()
    ensures
        call_told(ContextCallFailureKind::AgentUnavailable).0 == "cli_unavailable"@,
        call_told(ContextCallFailureKind::UnsupportedAgent).0 == "agent_unsupported"@,
        call_told(ContextCallFailureKind::CommandInvalid).0 == "runtime_dir_unavailable"@,
        call_told(ContextCallFailureKind::Start).0 == "cli_start_failed"@,
        call_told(ContextCallFailureKind::Wait).0 == "cli_wait_failed"@,
        call_told(ContextCallFailureKind::Exit).0 == "cli_failed"@,
        call_told(ContextCallFailureKind::Timeout).0 == "cli_timeout"@,
{
}

/// The records of a day are kept for two weeks; a file that is not named by a day stays.
pub proof fn records_are_kept_for_two_weeks(day: Seq<char>, name: Seq<char>, today: i32)
    ensures
        day_of(day) matches Some(d) ==> (is_old_log(day + ".jsonl"@, today) <==> d + 14 < today),
        day_of(day) is None ==> !is_old_log(day + ".jsonl"@, today),
        !crate::text::ends(name, ".jsonl"@) ==> !is_old_log(name, today),
{
    let n = day + ".jsonl"@;
    assert(n.take(n.len() - ".jsonl"@.len()) =~= day);
    assert(n.skip(n.len() - ".jsonl"@.len()) =~= ".jsonl"@);
}

} // verus!
