//! Which agent is asked, and how a call is noted.
use crate::adapters::ExecOptions;
use crate::agent_runtime::capabilities::refused;
use crate::agent_runtime::store::read;
use crate::agent_runtime::{runtime_exec_options, AgentRuntimeOverrides, Overrides};
use crate::context::diagnostics::{
    call_told, cli_failure, recorded_agent, ContextLogRecord, ContextOperation,
};
use crate::domain::{copy_text, Agent};
use crate::error::{other, AppError, ContextFault, ContextUpdateError, Fault};
use crate::sync::ContextCallFailure;
use crate::text::same;
use vstd::prelude::*;

verus! {

/// The outcome of an update.
#[derive(Clone, Copy, Debug, PartialEq, Eq, Structural)]
pub enum ContextUpdateStatus {
    NoChange,
    Partial,
    Updated,
}

/// The configuration that an update runs with, read once at its start: what is noted and what is
/// called are the same, whatever becomes of the settings meanwhile.
pub struct ContextLaunchConfig {
    pub raw_agent: String,
    pub agent: Option<Agent>,
    pub opts: Option<ExecOptions>,
}

/// The agent that a name means.
pub open spec fn name_means(name: Seq<char>, agent: Option<Agent>) -> bool {
    match agent {
        Some(a) => name == a.name(),
        None => forall|a: Agent| #[trigger] a.name() != name,
    }
}

impl ContextLaunchConfig {
    /// The configuration in the settings: the agent's name, and what is stored of its overrides.
    pub fn from_settings(
        raw_agent: &str,
        stored: &Option<Result<AgentRuntimeOverrides, String>>,
    ) -> (r: ContextLaunchConfig)
        ensures
            r.raw_agent@ == raw_agent@,
            name_means(raw_agent@, r.agent),
            r.opts is Some == (r.agent matches Some(a) && read(a, *stored) is Ok && refused(
                a,
                read(a, *stored)->Ok_0,
            ) is None),
            r.opts matches Some(o) ==> (Overrides {
                model: o.model.deep_view(),
                provider: o.provider.deep_view(),
                effort: o.effort.deep_view(),
            }) == read(r.agent->Some_0, *stored)->Ok_0.normal(),
    {
        let agent = Agent::parse(raw_agent);
        let opts: Option<ExecOptions> = match agent {
            Some(a) => match runtime_exec_options(a, stored) {
                Ok(o) => Some(o),
                Err(_) => None,
            },
            None => None,
        };
        ContextLaunchConfig { raw_agent: raw_agent.to_owned(), agent, opts }
    }
}

/// An agent that is called, with its options.
pub struct CliExtractor {
    pub agent: Agent,
    pub opts: ExecOptions,
}

/// Why no agent can be asked: a code and a sentence for people, and the failure itself.
pub open spec fn launch_fault(launch: ContextLaunchConfig) -> Option<
    (Seq<char>, Seq<char>, Seq<char>),
> {
    if launch.raw_agent@ == "none"@ {
        Some(
            (
                "agent_not_configured"@,
                "未选择 Context Agent，请在 Assistant 设置中选择 Codex、"@ + Agent::ClaudeCode.shown()
                    + " 或 Pi。"@,
                "未选择 Context Agent"@,
            ),
        )
    } else if launch.agent is None {
        Some(
            (
                "agent_configuration_invalid"@,
                "Assistant Agent 配置无效，请重新选择 Agent。"@,
                "Assistant Agent 配置无效"@,
            ),
        )
    } else if launch.opts is None {
        Some(
            (
                "runtime_configuration_invalid"@,
                "Agent Runtime 配置无效，请检查 Settings → Agent。"@,
                "Agent Runtime 配置不可用"@,
            ),
        )
    } else {
        None
    }
}

/// Nothing but the stage and what is told of a failure is noted.
pub open spec fn noted(
    before: ContextOperation,
    after: ContextOperation,
    stage: Seq<char>,
    code: Seq<char>,
    message: Seq<char>,
) -> bool {
    &&& after == ContextOperation { stage: after.stage, failure: after.failure, ..before }
    &&& after.stage@ == stage
    &&& after.failure matches Some((c, m)) && c@ == code && m@ == message
}

/// Nothing but the stage is noted.
pub open spec fn moved(before: ContextOperation, after: ContextOperation, stage: Seq<char>) -> bool {
    &&& after == ContextOperation { stage: after.stage, ..before }
    &&& after.stage@ == stage
}

/// The configuration is noted.
pub open spec fn configured(
    before: ContextOperation,
    launch: ContextLaunchConfig,
    after: ContextOperation,
) -> bool {
    &&& after == ContextOperation {
        agent: after.agent,
        model_override: after.model_override,
        ..before
    }
    &&& after.agent.deep_view() == Some(recorded_agent(launch.raw_agent@, launch.agent))
    &&& match launch.opts {
        Some(o) => after.model_override.deep_view() == Some(o.summary()),
        None => after.model_override == before.model_override,
    }
}

fn unavailable(message: &str) -> (e: AppError)
    ensures
        e.deep_view() == Fault::Context(ContextFault::AiUnavailable(message@)),
{
    AppError::Context(ContextUpdateError::AiUnavailable(message.to_owned()))
}

/// The agent that is asked.
pub fn require_cli(launch: &ContextLaunchConfig, operation: &mut ContextOperation) -> (r: Result<
    CliExtractor,
    AppError,
>)
    ensures
        match launch_fault(*launch) {
            Some((code, message, text)) => {
                &&& r matches Err(e)
                &&& r->Err_0.deep_view() == Fault::Context(ContextFault::AiUnavailable(text))
                &&& noted(*old(operation), *final(operation), "runtime_configuration"@, code, message)
            },
            None => {
                &&& r matches Ok(cli)
                &&& launch.agent == Some(r->Ok_0.agent)
                &&& launch.opts == Some(r->Ok_0.opts)
                &&& *final(operation) == *old(operation)
            },
        },
{
    if same(launch.raw_agent.as_str(), "none") {
        let mut message: String = "未选择 Context Agent，请在 Assistant 设置中选择 Codex、".to_owned();
        message.append(Agent::ClaudeCode.display_name().as_str());
        message.append(" 或 Pi。");
        operation.fail_with("runtime_configuration", "agent_not_configured", message.as_str());
        return Err(unavailable("未选择 Context Agent"));
    }
    let agent = match launch.agent {
        Some(a) => a,
        None => {
            operation.fail_with(
                "runtime_configuration",
                "agent_configuration_invalid",
                "Assistant Agent 配置无效，请重新选择 Agent。",
            );
            return Err(unavailable("Assistant Agent 配置无效"));
        },
    };
    match &launch.opts {
        Some(o) => Ok(
            CliExtractor {
                agent,
                opts: ExecOptions {
                    model: copy_text(&o.model),
                    provider: copy_text(&o.provider),
                    effort: copy_text(&o.effort),
                },
            },
        ),
        None => {
            operation.fail_with(
                "runtime_configuration",
                "runtime_configuration_invalid",
                "Agent Runtime 配置无效，请检查 Settings → Agent。",
            );
            Err(unavailable("Agent Runtime 配置不可用"))
        },
    }
}

/// Notes that the configuration of an update is known, and that there is a place to run an agent
/// in; without one the update fails.
pub fn begin_update(launch: &ContextLaunchConfig, operation: &mut ContextOperation) -> (r: Result<
    (),
    AppError,
>)
    ensures
        ({
            let c = ContextOperation {
                agent: final(operation).agent,
                model_override: final(operation).model_override,
                ..*old(operation)
            };
            &&& configured(*old(operation), *launch, c)
            &&& if old(operation).home is None {
                &&& r matches Err(e)
                &&& r->Err_0.deep_view() == Fault::Other("context home unavailable"@)
                &&& noted(
                    c,
                    *final(operation),
                    "home_resolution"@,
                    "home_unavailable"@,
                    "NoEnding Home 未初始化，无法安全运行 Context Agent。"@,
                )
            } else {
                &&& r is Ok
                &&& *final(operation) == c
            }
        }),
{
    operation.record_config(launch.raw_agent.as_str(), launch.agent, launch.opts.as_ref());
    if operation.home.is_none() {
        operation.fail_with(
            "home_resolution",
            "home_unavailable",
            "NoEnding Home 未初始化，无法安全运行 Context Agent。",
        );
        return Err(other("context home unavailable"));
    }
    Ok(())
}

/// Notes that the directory for the agent could not be made.
pub fn runtime_dir_failed(operation: &mut ContextOperation) -> (e: AppError)
    ensures
        e.deep_view() == Fault::Other("context runtime directory unavailable"@),
        noted(
            *old(operation),
            *final(operation),
            "runtime_setup"@,
            "runtime_dir_unavailable"@,
            "无法创建 Context 专用运行目录，请检查 NoEnding Home。"@,
        ),
{
    operation.fail_with(
        "runtime_setup",
        "runtime_dir_unavailable",
        "无法创建 Context 专用运行目录，请检查 NoEnding Home。",
    );
    other("context runtime directory unavailable")
}

/// Notes a call of an agent and how it ended. `reply` is what the call gave.
pub fn run_context_once(
    cli: &CliExtractor,
    reply: Result<String, ContextCallFailure>,
    operation: &mut ContextOperation,
) -> (r: Result<String, AppError>)
    ensures
        final(operation).agent.deep_view() == Some(cli.agent.name()),
        final(operation).model_override.deep_view() == Some(cli.opts.summary()),
        final(operation).stage@ == "model_call"@,
        *final(operation) == (ContextOperation {
            agent: final(operation).agent,
            model_override: final(operation).model_override,
            stage: final(operation).stage,
            cli_invoked: final(operation).cli_invoked,
            cli_exit_code: final(operation).cli_exit_code,
            cli_start_error: final(operation).cli_start_error,
            failure: final(operation).failure,
            ..*old(operation)
        }),
        match reply {
            Ok(raw) => {
                &&& r == Ok::<String, AppError>(raw)
                &&& final(operation).cli_invoked
                &&& final(operation).cli_exit_code == Some(0i32)
                &&& final(operation).cli_start_error is None
                &&& final(operation).failure == old(operation).failure
            },
            Err(f) => {
                &&& r matches Err(e)
                &&& r->Err_0.deep_view() == Fault::Other("context model call failed"@)
                &&& final(operation).cli_invoked == f.spawned
                &&& final(operation).cli_exit_code == f.exit_code
                &&& final(operation).cli_start_error == f.io_error_kind
                &&& final(operation).failure matches Some((c, m)) && (c@, m@) == call_told(f.kind)
            },
        },
{
    operation.record_invocation_config(cli.agent, &cli.opts);
    operation.set_stage("model_call");
    match reply {
        Ok(raw) => {
            operation.set_cli_result(true, Some(0), None);
            Ok(raw)
        },
        Err(failure) => {
            operation.set_cli_result(failure.spawned, failure.exit_code, failure.io_error_kind);
            let (code, message) = cli_failure(failure.kind);
            operation.fail_with("model_call", code, message.as_str());
            Err(other("context model call failed"))
        },
    }
}

/// The name of an outcome in a record.
pub open spec fn outcome_name(status: ContextUpdateStatus) -> Seq<char> {
    match status {
        ContextUpdateStatus::NoChange => "no_change"@,
        ContextUpdateStatus::Partial => "partial"@,
        ContextUpdateStatus::Updated => "updated"@,
    }
}

/// Ends an update: a failure is told without its own words, and everything is written down.
pub fn conclude(
    operation: &mut ContextOperation,
    outcome: Result<ContextUpdateStatus, AppError>,
) -> (r: (Result<ContextUpdateStatus, AppError>, Option<ContextLogRecord>))
    ensures
        r.1 is Some == old(operation).home is Some,
        match outcome {
            Ok(status) => {
                &&& r.0 == Ok::<ContextUpdateStatus, AppError>(status)
                &&& moved(*old(operation), *final(operation), outcome_name(status))
                &&& r.1 matches Some(record) ==> record.outcome@ == outcome_name(status)
                    && r.1 == final(operation).recorded(record.outcome, None, None)
            },
            Err(error) => {
                let (code, message) = old(operation).told(error);
                &&& r.0 matches Err(e)
                &&& r.0->Err_0.deep_view() == Fault::ContextUpdateFailed {
                    code,
                    message,
                    operation_id: old(operation).operation_id@,
                }
                &&& *final(operation) == *old(operation)
                &&& r.1 matches Some(record) ==> {
                    &&& record.outcome@ == "failed"@
                    &&& record.error_code matches Some(c) && c@ == code
                    &&& record.message matches Some(m) && m@ == message
                    &&& r.1 == old(operation).recorded(
                        record.outcome,
                        record.error_code,
                        record.message,
                    )
                }
            },
        },
{
    match outcome {
        Ok(status) => {
            let name: &'static str = match status {
                ContextUpdateStatus::NoChange => "no_change",
                ContextUpdateStatus::Partial => "partial",
                ContextUpdateStatus::Updated => "updated",
            };
            let record = operation.succeed(name);
            (Ok(status), record)
        },
        Err(error) => {
            let (failure, record) = operation.fail(&error);
            (Err(AppError::ContextUpdateFailed(failure)), record)
        },
    }
}

} // verus!
