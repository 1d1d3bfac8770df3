//! The assistant and the runtimes of agents.
use noending::adapters::registry::{exec_command, new_command, resume_command};
use noending::adapters::ExecOptions;
use noending::agent_runtime::capabilities::{capabilities_of, validate_runtime_overrides};
use noending::agent_runtime::store::{get_runtime_overrides, set_runtime_overrides, SettingWrite};
use noending::agent_runtime::{runtime_exec_options, AgentRuntimeOverrides};
use noending::assistant::{
    action_block, build_conversation_history, build_domain_snapshot, raw_prompt, split_action,
    ActionLaunch, ActionProposal, AssistantMessageRow, AssistantService, ModelAnswer, SearchHit,
    SyncRun,
};
use noending::context::launch::CliExtractor;
use noending::domain::{Agent, AgentInstallation};
use noending::store::Workstream;

fn some(s: &str) -> Option<String> {
    Some(s.to_string())
}

fn action(kind: &str) -> ActionProposal {
    ActionProposal {
        action: kind.to_string(),
        agent: None,
        owner_workstream_id: None,
        cwd: None,
        session_id: None,
    }
}

fn install() -> AgentInstallation {
    AgentInstallation {
        agent: Agent::Codex,
        executable_path: "/bin/agent".to_string(),
        version: None,
    }
}

#[test]
fn an_action_is_parted_from_the_answer() {
    let text = "好的。\n```noending-action\n{\"action\":\"resume_session\"}\n```\n再见";
    assert_eq!(
        action_block(text).as_deref(),
        Some("{\"action\":\"resume_session\"}")
    );
    let (content, found) = split_action(text, Some(action("resume_session")));
    assert_eq!(content, "好的。\n\n再见");
    assert_eq!(found.unwrap().action, "resume_session");
    // A block that could not be read stays in the answer.
    let (content, found) = split_action(text, None);
    assert_eq!(content, text);
    assert!(found.is_none());
    assert_eq!(action_block("没有动作"), None);
    assert_eq!(action_block("```noending-action\n未结束"), None);
}

#[test]
fn actions_are_checked_before_they_are_run() {
    let mut launch = action("launch_new_session");
    assert_eq!(
        AssistantService::execute_action(&launch).err().unwrap().message(),
        "动作缺少有效 agent"
    );
    launch.agent = some("nobody");
    assert!(AssistantService::execute_action(&launch).is_err());
    launch.agent = some("codex");
    launch.cwd = some("/repo");
    match AssistantService::execute_action(&launch).ok().unwrap() {
        ActionLaunch::New { agent, cwd, .. } => {
            assert_eq!(agent, Agent::Codex);
            assert_eq!(cwd.as_deref(), Some("/repo"));
        }
        ActionLaunch::Resume { .. } => panic!("a new session was asked for"),
    }
    let mut resume = action("resume_session");
    assert_eq!(
        AssistantService::execute_action(&resume).err().unwrap().message(),
        "动作缺少 session_id"
    );
    resume.session_id = some("s");
    assert!(AssistantService::execute_action(&resume).is_ok());
    assert_eq!(
        AssistantService::execute_action(&action("dance")).err().unwrap().message(),
        "未知动作: dance"
    );
}

#[test]
fn an_answer_is_the_models_or_what_was_found() {
    let hits = vec![SearchHit {
        kind: "item".to_string(),
        title: "长".repeat(100),
        parent_id: "w".to_string(),
    }];
    let answer = Some(ModelAnswer {
        text: " 你好 ".to_string(),
        runtime: "codex".to_string(),
    });
    let reply = AssistantService::chat("s", &answer, &hits, None);
    assert_eq!(reply.content, "你好");
    assert_eq!(reply.runtime, "codex");
    let empty = Some(ModelAnswer {
        text: String::new(),
        runtime: "codex".to_string(),
    });
    assert_eq!(AssistantService::chat("s", &empty, &hits, None).runtime, "empty");
    let found = AssistantService::chat("s", &None, &hits, None);
    assert_eq!(found.runtime, "retrieval-only");
    assert!(found.content.contains(&"长".repeat(80)));
    assert!(!found.content.contains(&"长".repeat(81)));
    let none = AssistantService::chat("s", &None, &Vec::new(), None);
    assert!(none.content.contains("检索没有命中"));
}

#[test]
fn an_empty_question_is_refused() {
    assert_eq!(
        AssistantService::question("  \n").err().unwrap().message(),
        "消息不能为空"
    );
    assert_eq!(AssistantService::question(" a ").ok().as_deref(), Some("a"));
}

#[test]
fn the_model_sees_the_workspace_and_the_talk() {
    let w = Workstream {
        id: "w".to_string(),
        title: "T".to_string(),
        description: "D".to_string(),
        lifecycle: "active".to_string(),
        visibility: "normal".to_string(),
        created_at: String::new(),
        updated_at: String::new(),
    };
    let runs = vec![SyncRun {
        created_at: "t".to_string(),
        summary: "s".to_string(),
        runtime: "r".to_string(),
    }];
    let snapshot = build_domain_snapshot(&vec![w], &Vec::new(), &runs);
    assert_eq!(
        snapshot,
        "== Workstreams ==\n- id=w | T | lifecycle=active | D\n\n== 相关检索命中 ==\n(none)\n\n== 最近同步 ==\n- [t] s (r)\n"
    );
    let talk: Vec<AssistantMessageRow> = (0..8)
        .map(|i| AssistantMessageRow {
            role: if i % 2 == 0 { "user" } else { "assistant" }.to_string(),
            content: format!("m{i}"),
        })
        .collect();
    let history = build_conversation_history(&talk);
    assert_eq!(history.lines().count(), 6);
    assert!(history.starts_with("用户: m2\nAssistant: m3\n"));
    let prompt = AssistantService::prompt(&snapshot, &history, "q");
    assert!(prompt.contains(&Agent::ClaudeCode.display_name()));
    assert!(prompt.ends_with("\n\n用户: q"));
    assert!(prompt.contains("== 领域快照 ==\n== Workstreams =="));
}

#[test]
fn blank_overrides_are_no_overrides() {
    let blank = AgentRuntimeOverrides {
        model: some("  "),
        provider: None,
        effort: some(""),
    };
    assert!(blank.is_default());
    match set_runtime_overrides(Agent::Codex, &blank).ok().unwrap() {
        SettingWrite::Delete { key } => assert_eq!(key, "agent.runtime.codex"),
        SettingWrite::Save { .. } => panic!("nothing is to be saved"),
    }
    let wanted = AgentRuntimeOverrides {
        model: some(" m "),
        provider: None,
        effort: None,
    };
    match set_runtime_overrides(Agent::Codex, &wanted).ok().unwrap() {
        SettingWrite::Delete { .. } => panic!("something is to be saved"),
        SettingWrite::Save { key, overrides } => {
            assert_eq!(key, "agent.runtime.codex");
            let stored = Some(Ok(overrides));
            let read = get_runtime_overrides(Agent::Codex, &stored).ok().unwrap();
            assert_eq!(read.model.as_deref(), Some("m"));
            let opts = runtime_exec_options(Agent::Codex, &stored).ok().unwrap();
            assert_eq!(opts.override_summary(), "model=m");
        }
    }
    let none = get_runtime_overrides(Agent::Pi, &None).ok().unwrap();
    assert!(none.is_default());
}

#[test]
fn what_an_agent_cannot_take_is_refused() {
    let provider = AgentRuntimeOverrides {
        model: None,
        provider: some("p"),
        effort: None,
    };
    assert!(!capabilities_of(Agent::Codex).provider.supports_override());
    let e = validate_runtime_overrides(Agent::Codex, &provider).err().unwrap();
    assert!(e.message().starts_with("Codex 不支持覆盖 "));
    assert!(capabilities_of(Agent::Pi).provider.supports_override());
    assert!(validate_runtime_overrides(Agent::Pi, &provider).is_ok());
    assert!(validate_runtime_overrides(Agent::Gemini, &AgentRuntimeOverrides::default()).is_ok());
}

#[test]
fn only_three_agents_are_launched() {
    let opts = ExecOptions::default();
    assert_eq!(opts.override_summary(), "agent-default");
    for agent in Agent::all() {
        let launched = matches!(agent, Agent::Codex | Agent::ClaudeCode | Agent::Pi);
        assert_eq!(
            new_command(agent, &install(), &opts, &None, &None).is_ok(),
            launched
        );
        assert_eq!(
            resume_command(agent, &install(), &opts, "s", &None, &None).is_ok(),
            launched
        );
        assert_eq!(exec_command(agent, &install(), &opts, "p").is_ok(), launched);
    }
}

#[test]
fn a_bare_prompt_needs_an_agent() {
    assert!(raw_prompt(&None, &install(), "p").is_err());
    let cli = Some(CliExtractor {
        agent: Agent::Codex,
        opts: ExecOptions::default(),
    });
    let line = raw_prompt(&cli, &install(), "p").ok().unwrap();
    assert_eq!(line.program, "/bin/agent");
    assert_eq!(line.args.first().map(String::as_str), Some("exec"));
    assert!(line.display().starts_with("/bin/agent exec"));
    let gemini = Some(CliExtractor {
        agent: Agent::Gemini,
        opts: ExecOptions::default(),
    });
    assert!(raw_prompt(&gemini, &install(), "p").is_err());
}
