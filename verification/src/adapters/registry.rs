//! The commands of all agents.
use crate::adapters::antigravity::AntigravityAdapter;
use crate::adapters::autoclaw::AutoClawAdapter;
use crate::adapters::claude::ClaudeAdapter;
use crate::adapters::codex::CodexAdapter;
use crate::adapters::dsh::DshAdapter;
use crate::adapters::gemini::GeminiAdapter;
use crate::adapters::pi::PiAdapter;
use crate::adapters::qoder::QoderAdapter;
use crate::adapters::workbuddy::WorkBuddyAdapter;
use crate::adapters::zcode::ZCodeAdapter;
use crate::adapters::{argument, claude, codex, pi, AgentCommand, CommandLine, ExecOptions};
use crate::domain::{Agent, AgentInstallation};
use crate::error::{AppError, Fault};
use vstd::prelude::*;

verus! {

/// Why an agent cannot be launched; only Codex, `claude_code` and Pi can.
pub open spec fn no_launch(agent: Agent) -> Option<Seq<char>> {
    match agent {
        Agent::Codex | Agent::ClaudeCode | Agent::Pi => None,
        Agent::Qoder => Some("Qoder 没有可启动的 CLI，无法新建会话"@),
        Agent::AutoClaw => Some(
            "AutoClaw 的 CLI 需要 OPENCLAW_STATE_DIR 才能找到自己的状态目录，NoEnding 暂时无法安全启动它"@,
        ),
        Agent::WorkBuddy => Some("WorkBuddy 是 GUI 应用，没有可启动的 CLI"@),
        Agent::Gemini => Some("Gemini CLI 未安装，NoEnding 只读取它的历史会话"@),
        Agent::ZCode => Some("ZCode 是桌面应用，没有可启动的 CLI"@),
        Agent::Dsh => Some("dsh 需要指定 profile，NoEnding 无法替用户选择"@),
        Agent::Antigravity => Some(
            "Antigravity 没有可启动的 CLI，NoEnding 只读取它的历史会话"@,
        ),
    }
}

/// Why a session of an agent cannot be continued.
pub open spec fn no_resume(agent: Agent) -> Option<Seq<char>> {
    match agent {
        Agent::Codex | Agent::ClaudeCode | Agent::Pi => None,
        Agent::Qoder => Some("Qoder 没有可启动的 CLI，无法恢复会话"@),
        Agent::AutoClaw => Some(
            "AutoClaw 的 CLI 需要 OPENCLAW_STATE_DIR 才能找到自己的状态目录，NoEnding 暂时无法安全恢复它"@,
        ),
        Agent::WorkBuddy => Some("WorkBuddy 是 GUI 应用，没有可启动的 CLI"@),
        Agent::Gemini => Some("Gemini CLI 的 --resume 只接受 latest 或序号，不能用会话 id 恢复"@),
        Agent::ZCode => Some("ZCode 是桌面应用，没有可启动的 CLI"@),
        Agent::Dsh => Some("dsh 需要指定 profile，NoEnding 无法替用户选择"@),
        Agent::Antigravity => Some("Antigravity 没有可恢复的 CLI，无法恢复会话"@),
    }
}

/// Why an agent cannot be asked for one answer.
pub open spec fn no_answer(agent: Agent) -> Option<Seq<char>> {
    match agent {
        Agent::Codex | Agent::ClaudeCode | Agent::Pi => None,
        Agent::Qoder => Some("Qoder 没有可启动的 CLI，无法一次性执行"@),
        Agent::AutoClaw => Some(
            "AutoClaw 的 CLI 需要 OPENCLAW_STATE_DIR 才能找到自己的状态目录，NoEnding 暂时无法安全执行它"@,
        ),
        Agent::WorkBuddy => Some("WorkBuddy 是 GUI 应用，没有可启动的 CLI"@),
        Agent::Gemini => Some("Gemini CLI 未安装，NoEnding 只读取它的历史会话"@),
        Agent::ZCode => Some("ZCode 是桌面应用，没有可启动的 CLI"@),
        Agent::Dsh => Some("dsh 需要指定 profile，NoEnding 无法替用户选择"@),
        Agent::Antigravity => Some("Antigravity 没有可执行的 CLI，无法一次性执行"@),
    }
}

/// The arguments of a new session.
pub open spec fn new_args(agent: Agent, opts: ExecOptions, context: Option<Seq<char>>) -> Seq<
    Seq<char>,
> {
    match agent {
        Agent::Codex => codex::runtime(opts) + argument(context),
        Agent::Pi => pi::runtime(opts) + argument(context),
        _ => claude::runtime(opts),
    }
}

/// The arguments that continue a session.
pub open spec fn resume_args(
    agent: Agent,
    opts: ExecOptions,
    session: Seq<char>,
    context: Option<Seq<char>>,
) -> Seq<Seq<char>> {
    match agent {
        Agent::Codex => seq!["resume"@] + codex::runtime(opts) + seq![session] + argument(context),
        Agent::Pi => pi::runtime(opts) + seq!["--session"@, session] + argument(context),
        _ => seq!["--resume"@, session] + claude::runtime(opts),
    }
}

/// The arguments that ask for one answer.
pub open spec fn exec_args(agent: Agent, opts: ExecOptions, prompt: Seq<char>) -> Seq<Seq<char>> {
    match agent {
        Agent::Codex => seq!["exec"@, "-s"@, "read-only"@, "--skip-git-repo-check"@]
            + codex::runtime(opts) + seq![prompt],
        Agent::Pi => seq!["-p"@, "--no-session"@, "--no-tools"@] + pi::runtime(opts) + seq![prompt],
        _ => seq!["-p"@, "--output-format"@, "text"@] + claude::runtime(opts) + seq![prompt],
    }
}

/// The command line of a new session of an agent. `context` is the context to start with,
/// literally.
pub fn new_command(
    agent: Agent,
    install: &AgentInstallation,
    opts: &ExecOptions,
    context: &Option<String>,
    cwd: &Option<String>,
) -> (r: Result<AgentCommand, AppError>)
    ensures
        match no_launch(agent) {
            Some(why) => r matches Err(e) && e.deep_view() == Fault::Other(why),
            None => r matches Ok(c) && c.deep_view() == (CommandLine {
                program: install.executable_path@,
                args: new_args(agent, *opts, context.deep_view()),
                cwd: cwd.deep_view(),
            }),
        },
{
    match agent {
        Agent::Codex => Ok(CodexAdapter::build_new_command(install, opts, context, cwd)),
        Agent::ClaudeCode => Ok(ClaudeAdapter::build_new_command(install, opts, cwd)),
        Agent::Pi => Ok(PiAdapter::build_new_command(install, opts, context, cwd)),
        Agent::Qoder => QoderAdapter::build_new_command(),
        Agent::AutoClaw => AutoClawAdapter::build_new_command(),
        Agent::WorkBuddy => WorkBuddyAdapter::build_new_command(),
        Agent::Gemini => GeminiAdapter::build_new_command(),
        Agent::ZCode => ZCodeAdapter::build_new_command(),
        Agent::Dsh => DshAdapter::build_new_command(),
        Agent::Antigravity => AntigravityAdapter::build_new_command(),
    }
}

/// The command line that continues a session of an agent.
pub fn resume_command(
    agent: Agent,
    install: &AgentInstallation,
    opts: &ExecOptions,
    agent_session_id: &str,
    context: &Option<String>,
    cwd: &Option<String>,
) -> (r: Result<AgentCommand, AppError>)
    ensures
        match no_resume(agent) {
            Some(why) => r matches Err(e) && e.deep_view() == Fault::Other(why),
            None => r matches Ok(c) && c.deep_view() == (CommandLine {
                program: install.executable_path@,
                args: resume_args(agent, *opts, agent_session_id@, context.deep_view()),
                cwd: cwd.deep_view(),
            }),
        },
{
    match agent {
        Agent::Codex => Ok(
            CodexAdapter::build_resume_command(install, opts, agent_session_id, context, cwd),
        ),
        Agent::ClaudeCode => Ok(
            ClaudeAdapter::build_resume_command(install, opts, agent_session_id, cwd),
        ),
        Agent::Pi => Ok(
            PiAdapter::build_resume_command(install, opts, agent_session_id, context, cwd),
        ),
        Agent::Qoder => QoderAdapter::build_resume_command(),
        Agent::AutoClaw => AutoClawAdapter::build_resume_command(),
        Agent::WorkBuddy => WorkBuddyAdapter::build_resume_command(),
        Agent::Gemini => GeminiAdapter::build_resume_command(),
        Agent::ZCode => ZCodeAdapter::build_resume_command(),
        Agent::Dsh => DshAdapter::build_resume_command(),
        Agent::Antigravity => AntigravityAdapter::build_resume_command(),
    }
}

/// The command line that asks an agent for one answer.
pub fn exec_command(
    agent: Agent,
    install: &AgentInstallation,
    opts: &ExecOptions,
    prompt: &str,
) -> (r: Result<AgentCommand, AppError>)
    ensures
        match no_answer(agent) {
            Some(why) => r matches Err(e) && e.deep_view() == Fault::Other(why),
            None => r matches Ok(c) && c.deep_view() == (CommandLine {
                program: install.executable_path@,
                args: exec_args(agent, *opts, prompt@),
                cwd: None,
            }),
        },
{
    match agent {
        Agent::Codex => Ok(CodexAdapter::build_exec_command(install, opts, prompt)),
        Agent::ClaudeCode => Ok(ClaudeAdapter::build_exec_command(install, opts, prompt)),
        Agent::Pi => Ok(PiAdapter::build_exec_command(install, opts, prompt)),
        Agent::Qoder => QoderAdapter::build_exec_command(),
        Agent::AutoClaw => AutoClawAdapter::build_exec_command(),
        Agent::WorkBuddy => WorkBuddyAdapter::build_exec_command(),
        Agent::Gemini => GeminiAdapter::build_exec_command(),
        Agent::ZCode => ZCodeAdapter::build_exec_command(),
        Agent::Dsh => DshAdapter::build_exec_command(),
        Agent::Antigravity => AntigravityAdapter::build_exec_command(),
    }
}

/// An agent that takes no overrides cannot be launched, and one that can be launched takes an
/// override of its model.
pub proof fn what_can_be_overridden_can_be_launched(agent: Agent)
    ensures
        no_launch(agent) is None <==> crate::agent_runtime::capabilities::capabilities(agent).model
            != crate::agent_runtime::RuntimeFieldCapability::Unsupported,
{
}

} // verus!
