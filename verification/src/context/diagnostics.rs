//! The record of an update: how far it came and what is told of a failure, without what the
//! model or the database said.
use crate::adapters::ExecOptions;
use crate::domain::{copy_text, Agent};
use crate::error::{AppError, ContextUpdateError, ContextUpdateFailure};
use crate::paths::{child_of, child_path};
use crate::sync::ContextCallFailureKind;
use crate::text::{ends, same, strip_suffix};
use crate::time::{day_of, parse_day, random_id};
use vstd::prelude::*;

verus! {

/// The directories that the application keeps for itself.
pub struct NoEndingHome {
    pub root: String,
    pub runtime_dir: String,
    pub logs_dir: String,
}

impl NoEndingHome {
    /// The same directories.
    pub fn copy(&self) -> (r: NoEndingHome)
        ensures
            r == *self,
    {
        NoEndingHome {
            root: self.root.clone(),
            runtime_dir: self.runtime_dir.clone(),
            logs_dir: self.logs_dir.clone(),
        }
    }
}

/// Where an agent runs that is asked for a context.
pub fn runtime_dir(home: &NoEndingHome) -> (r: String)
    ensures
        r@ == child_of(home.runtime_dir@, "context-extraction"@),
{
    child_path(home.runtime_dir.as_str(), "context-extraction")
}

/// Where the records are.
pub fn log_dir(home: &NoEndingHome) -> (r: String)
    ensures
        r@ == child_of(home.logs_dir@, "context-extraction"@),
{
    child_path(home.logs_dir.as_str(), "context-extraction")
}

/// The file that the records of a day are in.
pub fn log_file(home: &NoEndingHome, date: &str) -> (r: String)
    ensures
        r@ == child_of(child_of(home.logs_dir@, "context-extraction"@), date@ + ".jsonl"@),
{
    let mut name: String = date.to_owned();
    name.append(".jsonl");
    child_path(log_dir(home).as_str(), name.as_str())
}

/// Whether a file holds the records of a day more than fourteen days ago.
pub open spec fn is_old_log(name: Seq<char>, today: i32) -> bool {
    ends(name, ".jsonl"@) && match day_of(name.take(name.len() - ".jsonl"@.len())) {
        Some(day) => day < today - 14,
        None => false,
    }
}

/// The files of a directory that hold records of a day more than fourteen days ago, in order.
/// `today` is the number of the present day.
pub fn old_logs(names: &Vec<String>, today: i32) -> (r: Vec<String>)
    ensures
        r@ == names@.filter(|n: String| is_old_log(n@, today)),
{
    let ghost wanted = |n: String| is_old_log(n@, today);
    let cutoff: i64 = today as i64 - 14;
    let mut out: Vec<String> = Vec::new();
    let mut i: usize = 0;
    proof {
        reveal(Seq::filter);
    }
    assert(names@.take(0) =~= Seq::<String>::empty());
    while i < names.len()
        invariant
            i <= names@.len(),
            cutoff == today - 14,
            wanted == (|n: String| is_old_log(n@, today)),
            out@ == names@.take(i as int).filter(wanted),
        decreases names@.len() - i,
    {
        proof {
            reveal(Seq::filter);
        }
        assert(names@.take(i + 1).drop_last() =~= names@.take(i as int));
        assert(names@.take(i + 1).last() == names@[i as int]);
        match strip_suffix(names[i].as_str(), ".jsonl") {
            Some(date) => {
                match parse_day(date.as_str()) {
                    Some(day) => {
                        if (day as i64) < cutoff {
                            out.push(names[i].clone());
                        }
                    },
                    None => {},
                }
            },
            None => {},
        }
        i = i + 1;
    }
    assert(names@.take(i as int) =~= names@);
    out
}

/// The files of a log directory that are to be removed on a day, which is written `YYYY-MM-DD`.
pub fn prune_old_logs(names: &Vec<String>, today: &str) -> (r: Vec<String>)
    ensures
        match day_of(today@) {
            Some(day) => r@ == names@.filter(|n: String| is_old_log(n@, day)),
            None => r@.len() == 0,
        },
{
    match parse_day(today) {
        Some(day) => old_logs(names, day),
        None => Vec::new(),
    }
}

// ---------------------------------------------------------------------------
// Operations
// ---------------------------------------------------------------------------

/// An update while it runs.
pub struct ContextOperation {
    pub operation_id: String,
    pub target_type: &'static str,
    pub target_id: String,
    pub home: Option<NoEndingHome>,
    pub stage: &'static str,
    pub agent: Option<String>,
    pub model_override: Option<String>,
    pub cli_invoked: bool,
    pub cli_exit_code: Option<i32>,
    pub cli_start_error: Option<&'static str>,
    pub failure: Option<(&'static str, String)>,
}

/// What is written down of an update.
pub struct ContextLogRecord {
    pub operation_id: String,
    pub operation_type: &'static str,
    pub target_id: String,
    pub agent: Option<String>,
    pub model_override: Option<String>,
    pub cli_invoked: bool,
    pub cli_exit_code: Option<i32>,
    pub cli_start_error: Option<&'static str>,
    pub stage: &'static str,
    pub outcome: &'static str,
    pub error_code: Option<&'static str>,
    pub message: Option<String>,
}

/// The agent as a record names it.
pub open spec fn recorded_agent(raw: Seq<char>, parsed: Option<Agent>) -> Seq<char> {
    match parsed {
        Some(agent) => agent.name(),
        None => if raw == "none"@ {
            "none"@
        } else {
            "invalid"@
        },
    }
}

impl ContextOperation {
    /// What is written down, where there is a place for it.
    pub open spec fn recorded(
        self,
        outcome: &'static str,
        code: Option<&'static str>,
        message: Option<String>,
    ) -> Option<ContextLogRecord> {
        match self.home {
            None => None,
            Some(_) => Some(
                ContextLogRecord {
                    operation_id: self.operation_id,
                    operation_type: self.target_type,
                    target_id: self.target_id,
                    agent: self.agent,
                    model_override: self.model_override,
                    cli_invoked: self.cli_invoked,
                    cli_exit_code: self.cli_exit_code,
                    cli_start_error: self.cli_start_error,
                    stage: self.stage,
                    outcome,
                    error_code: code,
                    message,
                },
            ),
        }
    }

    /// What is told of a failure: what was noted while the update ran, else what the failure and
    /// the stage allow to say.
    pub open spec fn told(self, error: AppError) -> (Seq<char>, Seq<char>) {
        match self.failure {
            Some((code, message)) => (code@, message@),
            None => safe(error, self.stage@),
        }
    }

    /// An update that starts; its id is fresh.
    pub fn new(
        target_type: &'static str,
        target_id: &str,
        home: Option<&NoEndingHome>,
    ) -> (r: ContextOperation)
        ensures
            r.operation_id@.len() == 36,
            r.target_type@ == target_type@,
            r.target_id@ == target_id@,
            r.home == (match home {
                Some(h) => Some(*h),
                None => None,
            }),
            r.stage@ == "snapshot"@,
            r.agent is None,
            r.model_override is None,
            !r.cli_invoked,
            r.cli_exit_code is None,
            r.cli_start_error is None,
            r.failure is None,
    {
        ContextOperation {
            operation_id: random_id(),
            target_type,
            target_id: target_id.to_owned(),
            home: match home {
                Some(h) => Some(h.copy()),
                None => None,
            },
            stage: "snapshot",
            agent: None,
            model_override: None,
            cli_invoked: false,
            cli_exit_code: None,
            cli_start_error: None,
            failure: None,
        }
    }

    /// Notes how far the update has come.
    pub fn set_stage(&mut self, stage: &'static str)
        ensures
            *final(self) == (ContextOperation { stage, ..*old(self) }),
    {
        self.stage = stage;
    }

    /// Notes the agent that is configured.
    pub fn record_config(
        &mut self,
        raw_agent: &str,
        parsed_agent: Option<Agent>,
        opts: Option<&ExecOptions>,
    )
        ensures
            final(self).agent.deep_view() == Some(recorded_agent(raw_agent@, parsed_agent)),
            match opts {
                Some(o) => final(self).model_override.deep_view() == Some(o.summary()),
                None => final(self).model_override == old(self).model_override,
            },
            *final(self) == (ContextOperation {
                agent: final(self).agent,
                model_override: final(self).model_override,
                ..*old(self)
            }),
    {
        let name: String = match parsed_agent {
            Some(agent) => agent.as_str().to_owned(),
            None => {
                if same(raw_agent, "none") {
                    "none".to_owned()
                } else {
                    "invalid".to_owned()
                }
            },
        };
        self.agent = Some(name);
        match opts {
            Some(o) => {
                self.model_override = Some(o.override_summary());
            },
            None => {},
        }
    }

    /// Notes the agent that is called.
    pub fn record_invocation_config(&mut self, agent: Agent, opts: &ExecOptions)
        ensures
            final(self).agent.deep_view() == Some(agent.name()),
            final(self).model_override.deep_view() == Some(opts.summary()),
            *final(self) == (ContextOperation {
                agent: final(self).agent,
                model_override: final(self).model_override,
                ..*old(self)
            }),
    {
        self.agent = Some(agent.as_str().to_owned());
        self.model_override = Some(opts.override_summary());
    }

    /// Notes how the call ended.
    pub fn set_cli_result(
        &mut self,
        spawned: bool,
        exit_code: Option<i32>,
        io_error_kind: Option<&'static str>,
    )
        ensures
            *final(self) == (ContextOperation {
                cli_invoked: spawned,
                cli_exit_code: exit_code,
                cli_start_error: io_error_kind,
                ..*old(self)
            }),
    {
        self.cli_invoked = spawned;
        self.cli_exit_code = exit_code;
        self.cli_start_error = io_error_kind;
    }

    /// Notes what is to be told of a failure.
    pub fn fail_with(&mut self, stage: &'static str, code: &'static str, message: &str)
        ensures
            *final(self) == (ContextOperation {
                stage,
                failure: final(self).failure,
                ..*old(self)
            }),
            final(self).failure matches Some((c, m)) && c == code && m@ == message@,
    {
        self.stage = stage;
        self.failure = Some((code, message.to_owned()));
    }

    fn write_record(
        &self,
        outcome: &'static str,
        error_code: Option<&'static str>,
        message: Option<String>,
    ) -> (r: Option<ContextLogRecord>)
        ensures
            r == self.recorded(outcome, error_code, message),
    {
        match &self.home {
            None => None,
            Some(_) => Some(
                ContextLogRecord {
                    operation_id: self.operation_id.clone(),
                    operation_type: self.target_type,
                    target_id: self.target_id.clone(),
                    agent: copy_text(&self.agent),
                    model_override: copy_text(&self.model_override),
                    cli_invoked: self.cli_invoked,
                    cli_exit_code: self.cli_exit_code,
                    cli_start_error: self.cli_start_error,
                    stage: self.stage,
                    outcome,
                    error_code,
                    message,
                },
            ),
        }
    }

    /// The update was made.
    pub fn succeed(&mut self, outcome: &'static str) -> (r: Option<ContextLogRecord>)
        ensures
            *final(self) == (ContextOperation { stage: outcome, ..*old(self) }),
            r == final(self).recorded(outcome, None, None),
    {
        self.stage = outcome;
        self.write_record(outcome, None, None)
    }

    /// The update was not made: what is told of it, and what is written down.
    pub fn fail(&self, error: &AppError) -> (r: (ContextUpdateFailure, Option<ContextLogRecord>))
        ensures
            (r.0.code@, r.0.message@) == self.told(*error),
            r.0.operation_id@ == self.operation_id@,
            r.1 is Some == self.home is Some,
            r.1 matches Some(record) ==> {
                &&& record.outcome@ == "failed"@
                &&& record.error_code matches Some(code) && code@ == self.told(*error).0
                &&& record.message matches Some(message) && message@ == self.told(*error).1
                &&& r.1 == self.recorded(record.outcome, record.error_code, record.message)
            },
    {
        let (code, message): (&'static str, String) = match &self.failure {
            Some((code, message)) => (*code, message.clone()),
            None => {
                let (code, message) = safe_error(error, self.stage);
                (code, message.to_owned())
            },
        };
        (
            ContextUpdateFailure {
                code: code.to_owned(),
                message: message.clone(),
                operation_id: self.operation_id.clone(),
            },
            self.write_record("failed", Some(code), Some(message)),
        )
    }
}

// ---------------------------------------------------------------------------
// What is told
// ---------------------------------------------------------------------------

/// What is told of a failure in a stage: a code and a sentence. Neither depends on the text that
/// came with the failure.
pub open spec fn safe(error: AppError, stage: Seq<char>) -> (Seq<char>, Seq<char>) {
    match error {
        AppError::Context(ContextUpdateError::AiUnavailable(_)) => (
            "ai_unavailable"@,
            "未配置可用的 Context Agent，请检查 Assistant Agent 设置。"@,
        ),
        AppError::Context(ContextUpdateError::ModelCallFailed(_)) => (
            "model_call_failed"@,
            "Agent 模型调用失败，请检查 CLI 状态后重试。"@,
        ),
        AppError::Context(ContextUpdateError::InvalidOutput(_)) => (
            "invalid_output"@,
            "Agent 返回内容不符合 Context 格式，请重试。"@,
        ),
        AppError::Context(ContextUpdateError::ConcurrencyConflict(_)) => (
            "stale_snapshot"@,
            "内容已变化，请重新更新。"@,
        ),
        AppError::Context(ContextUpdateError::InputTooLarge(_)) => (
            "input_too_large"@,
            "待处理内容超过单次更新上限。"@,
        ),
        AppError::Context(ContextUpdateError::Storage(_)) => (
            "storage_failed"@,
            "保存 Context 失败，请重试。"@,
        ),
        AppError::Io(_) => (
            "io_failed"@,
            "准备 Context 更新时发生文件错误，请重试。"@,
        ),
        AppError::Db(_) => (
            "storage_failed"@,
            "读取或保存 Context 失败，请重试。"@,
        ),
        AppError::Json(_) => (
            "storage_failed"@,
            "读取或保存 Context 失败，请重试。"@,
        ),
        AppError::Other(_) => if stage == "database_commit"@ {
            ("storage_failed"@, "保存 Context 失败，请重试。"@)
        } else if stage == "snapshot"@ {
            (
                "target_unavailable"@,
                "找不到更新目标或无法读取其当前状态。"@,
            )
        } else {
            ("update_failed"@, "Context 更新失败，请重试。"@)
        },
        AppError::ContextUpdateFailed(_) => (
            "update_failed"@,
            "Context 更新失败，请重试。"@,
        ),
    }
}

/// What is told of a failure in a stage.
pub fn safe_error(error: &AppError, stage: &str) -> (r: (&'static str, &'static str))
    ensures
        (r.0@, r.1@) == safe(*error, stage@),
{
    match error {
        AppError::Context(ContextUpdateError::AiUnavailable(_)) => (
            "ai_unavailable",
            "未配置可用的 Context Agent，请检查 Assistant Agent 设置。",
        ),
        AppError::Context(ContextUpdateError::ModelCallFailed(_)) => (
            "model_call_failed",
            "Agent 模型调用失败，请检查 CLI 状态后重试。",
        ),
        AppError::Context(ContextUpdateError::InvalidOutput(_)) => (
            "invalid_output",
            "Agent 返回内容不符合 Context 格式，请重试。",
        ),
        AppError::Context(ContextUpdateError::ConcurrencyConflict(_)) => (
            "stale_snapshot",
            "内容已变化，请重新更新。",
        ),
        AppError::Context(ContextUpdateError::InputTooLarge(_)) => (
            "input_too_large",
            "待处理内容超过单次更新上限。",
        ),
        AppError::Context(ContextUpdateError::Storage(_)) => (
            "storage_failed",
            "保存 Context 失败，请重试。",
        ),
        AppError::Io(_) => ("io_failed", "准备 Context 更新时发生文件错误，请重试。"),
        AppError::Db(_) => ("storage_failed", "读取或保存 Context 失败，请重试。"),
        AppError::Json(_) => ("storage_failed", "读取或保存 Context 失败，请重试。"),
        AppError::Other(_) => {
            if same(stage, "database_commit") {
                ("storage_failed", "保存 Context 失败，请重试。")
            } else if same(stage, "snapshot") {
                ("target_unavailable", "找不到更新目标或无法读取其当前状态。")
            } else {
                ("update_failed", "Context 更新失败，请重试。")
            }
        },
        AppError::ContextUpdateFailed(_) => ("update_failed", "Context 更新失败，请重试。"),
    }
}

/// What is told of a failed call: a code and a sentence.
pub open spec fn call_told(kind: ContextCallFailureKind) -> (Seq<char>, Seq<char>) {
    match kind {
        ContextCallFailureKind::AgentUnavailable => (
            "cli_unavailable"@,
            "找不到所选 Agent CLI，请检查 Agent 是否已安装。"@,
        ),
        ContextCallFailureKind::UnsupportedAgent => (
            "agent_unsupported"@,
            "Context 提取支持 Codex、"@ + Agent::ClaudeCode.shown()
                + " 和 Pi，请更改 Assistant Agent。"@,
        ),
        ContextCallFailureKind::CommandInvalid => (
            "runtime_dir_unavailable"@,
            "无法使用 Context 专用运行目录，请检查 NoEnding Home。"@,
        ),
        ContextCallFailureKind::Start => (
            "cli_start_failed"@,
            "Agent CLI 无法启动，请检查安装和权限。"@,
        ),
        ContextCallFailureKind::Wait => (
            "cli_wait_failed"@,
            "等待 Agent CLI 完成时发生错误，请重试。"@,
        ),
        ContextCallFailureKind::Exit => (
            "cli_failed"@,
            "Agent CLI 执行失败，请检查 CLI 状态后重试。"@,
        ),
        ContextCallFailureKind::Timeout => (
            "cli_timeout"@,
            "Agent CLI 超时，请重试或检查 CLI 状态。"@,
        ),
    }
}

fn supported_agents() -> (r: String)
    ensures
        r@ == "Context 提取支持 Codex、"@ + Agent::ClaudeCode.shown()
            + " 和 Pi，请更改 Assistant Agent。"@,
{
    let mut message: String = "Context 提取支持 Codex、".to_owned();
    message.append(Agent::ClaudeCode.display_name().as_str());
    message.append(" 和 Pi，请更改 Assistant Agent。");
    message
}

/// What is told of a failed call.
pub fn cli_failure(kind: ContextCallFailureKind) -> (r: (&'static str, String))
    ensures
        (r.0@, r.1@) == call_told(kind),
{
    match kind {
        ContextCallFailureKind::AgentUnavailable => (
            "cli_unavailable",
            "找不到所选 Agent CLI，请检查 Agent 是否已安装。".to_owned(),
        ),
        ContextCallFailureKind::UnsupportedAgent => (
            "agent_unsupported",
            supported_agents(),
        ),
        ContextCallFailureKind::CommandInvalid => (
            "runtime_dir_unavailable",
            "无法使用 Context 专用运行目录，请检查 NoEnding Home。".to_owned(),
        ),
        ContextCallFailureKind::Start => (
            "cli_start_failed",
            "Agent CLI 无法启动，请检查安装和权限。".to_owned(),
        ),
        ContextCallFailureKind::Wait => (
            "cli_wait_failed",
            "等待 Agent CLI 完成时发生错误，请重试。".to_owned(),
        ),
        ContextCallFailureKind::Exit => (
            "cli_failed",
            "Agent CLI 执行失败，请检查 CLI 状态后重试。".to_owned(),
        ),
        ContextCallFailureKind::Timeout => (
            "cli_timeout",
            "Agent CLI 超时，请重试或检查 CLI 状态。".to_owned(),
        ),
    }
}

// ---------------------------------------------------------------------------
// Laws
// ---------------------------------------------------------------------------

/// The text that came with a failure is never told: of two failures that differ in nothing else,
/// the same is told.
pub proof fn the_text_of_a_failure_is_not_told(a: String, b: String, stage: Seq<char>)
    ensures
        safe(AppError::Other(a), stage) == safe(AppError::Other(b), stage),
        safe(AppError::Db(a), stage) == safe(AppError::Db(b), stage),
        safe(AppError::Io(a), stage) == safe(AppError::Io(b), stage),
        safe(AppError::Json(a), stage) == safe(AppError::Json(b), stage),
        safe(AppError::Context(ContextUpdateError::AiUnavailable(a)), stage) == safe(
            AppError::Context(ContextUpdateError::AiUnavailable(b)),
            stage,
        ),
        safe(AppError::Context(ContextUpdateError::ModelCallFailed(a)), stage) == safe(
            AppError::Context(ContextUpdateError::ModelCallFailed(b)),
            stage,
        ),
        safe(AppError::Context(ContextUpdateError::InvalidOutput(a)), stage) == safe(
            AppError::Context(ContextUpdateError::InvalidOutput(b)),
            stage,
        ),
        safe(AppError::Context(ContextUpdateError::ConcurrencyConflict(a)), stage) == safe(
            AppError::Context(ContextUpdateError::ConcurrencyConflict(b)),
            stage,
        ),
        safe(AppError::Context(ContextUpdateError::InputTooLarge(a)), stage) == safe(
            AppError::Context(ContextUpdateError::InputTooLarge(b)),
            stage,
        ),
        safe(AppError::Context(ContextUpdateError::Storage(a)), stage) == safe(
            AppError::Context(ContextUpdateError::Storage(b)),
            stage,
        ),
{
}

} // verus!
