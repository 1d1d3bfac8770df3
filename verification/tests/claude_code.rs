//! The transcripts of `claude_code`.
use noending::adapters::claude::ClaudeAdapter;
use noending::adapters::reader::{MemberReadDelta, SourceFile};
use noending::adapters::{inspect_file_source, DiscoveredMemberKind, ExecOptions, FileProbe};
use noending::domain::{
    Agent, AgentInstallation, SessionMemberCursor, SessionMemberRelation, SessionMessageRole,
    SourceAvailability, StatsUpdate,
};
use noending::paths::FoundFile;

fn member_line(idx: usize, vtype: &str, role: &str, text: &str) -> String {
    format!(
        r#"{{"type":"{vtype}","uuid":"u{idx}","sessionId":"s1","cwd":"/repo","timestamp":"2026-09-22T15:01:{idx:02}.000Z","message":{{"role":"{role}","content":[{{"type":"text","text":"{text}"}}]}}}}"#
    )
}

fn file(name: &str, text: &str) -> FoundFile {
    FoundFile {
        path: format!("/projects/{name}"),
        name: name.to_string(),
        ancestors: Vec::new(),
        modified: None,
        head: text.lines().map(|l| l.to_string()).collect(),
        data: text.as_bytes().to_vec(),
    }
}

fn read(lines: &[String]) -> MemberReadDelta {
    let source = SourceFile {
        identity: "1:1".to_string(),
        mtime: None,
        data: (lines.join("\n") + "\n").into_bytes(),
    };
    ClaudeAdapter::read_member_delta(
        SessionMemberRelation::Root,
        &source,
        &SessionMemberCursor::start(),
    )
}

#[test]
fn claude_the_root_read_keeps_prose_and_counts_the_rest() {
    let delta = read(&[
        member_line(1, "user", "user", "改一下详情页"),
        r#"{"type":"assistant","uuid":"u2","sessionId":"s1","cwd":"/repo","message":{"role":"assistant","content":[{"type":"text","text":"我先看现状。"},{"type":"tool_use","name":"Read","id":"t1"}]}}"#.to_string(),
        r#"{"type":"user","uuid":"u3","sessionId":"s1","cwd":"/repo","message":{"role":"user","content":[{"type":"tool_result","tool_use_id":"t1","content":"contents"}]}}"#.to_string(),
        r#"{"type":"user","uuid":"u4","sessionId":"s1","isSidechain":true,"cwd":"/repo","message":{"role":"user","content":[{"type":"text","text":"子任务的问题"}]}}"#.to_string(),
        r#"{"type":"assistant","uuid":"u5","sessionId":"s1","isSidechain":true,"cwd":"/repo","message":{"role":"assistant","content":[{"type":"text","text":"子任务的结论"}]}}"#.to_string(),
        member_line(6, "assistant", "assistant", "问题在这里，已经修改完成。"),
        r#"{"type":"summary","uuid":"u7","sessionId":"s1","summary":"compressed"}"#.to_string(),
    ]);
    let texts: Vec<(SessionMessageRole, &str)> = delta
        .messages
        .iter()
        .map(|m| (m.role, m.content.as_str()))
        .collect();
    assert_eq!(
        texts,
        vec![
            (SessionMessageRole::User, "改一下详情页"),
            (SessionMessageRole::Assistant, "我先看现状。"),
            (SessionMessageRole::Assistant, "问题在这里，已经修改完成。"),
        ],
        "sidechain text and tool results never become conversation"
    );
    match delta.stats {
        Some(StatsUpdate::Snapshot(s)) => {
            assert_eq!(s.tool_call_count, Some(1));
            assert_eq!(s.compaction_count, Some(1));
            assert_eq!(s.side_activity_count, Some(2), "the two sidechain lines");
        }
        other => panic!("expected snapshot, got {other:?}"),
    }
}

#[test]
fn meta_and_injected_user_lines_are_not_conversation() {
    let delta = read(&[
        r#"{"type":"user","uuid":"u1","isMeta":true,"sessionId":"s1","cwd":"/repo","message":{"role":"user","content":[{"type":"text","text":"<command-name>/clear</command-name>"}]}}"#.to_string(),
        r#"{"type":"user","uuid":"u2","sessionId":"s1","cwd":"/repo","message":{"role":"user","content":[{"type":"text","text":"<system-reminder>context</system-reminder>"}]}}"#.to_string(),
        r#"{"type":"user","uuid":"u3","sessionId":"s1","cwd":"/repo","message":{"role":"user","content":[{"type":"text","text":"真正的问题"}]}}"#.to_string(),
    ]);
    assert_eq!(delta.messages.len(), 1);
    assert_eq!(delta.messages[0].content, "真正的问题");
}

#[test]
fn discovery_reads_session_facts_and_skips_foreign_files() {
    let good = file(
        "s1.jsonl",
        &([
            member_line(1, "user", "user", "把日报整理一下"),
            member_line(2, "assistant", "assistant", "整理好了。"),
        ]
        .join("\n")
            + "\n"),
    );
    // A foreign shape is refused by the fingerprint.
    let foreign = file("x.jsonl", "{\"hello\":\"world\"}\n");

    assert!(ClaudeAdapter::discover_member(&foreign).is_none());
    let found = ClaudeAdapter::discover_member(&good).unwrap();
    assert!(matches!(found.kind, DiscoveredMemberKind::Root));
    assert_eq!(found.source_member_id, "s1");
    assert_eq!(found.cwd.as_deref(), Some("/repo"));
    assert_eq!(found.first_user_text.as_deref(), Some("把日报整理一下"));
}

#[test]
fn claude_inspect_reports_missing_only_for_a_confirmed_absent_file() {
    assert_eq!(
        inspect_file_source(FileProbe::File),
        SourceAvailability::Present
    );
    assert_eq!(
        inspect_file_source(FileProbe::NotFound),
        SourceAvailability::Missing
    );
}

#[test]
fn assistant_messages_carry_their_source_model() {
    let line = |idx: usize, model: &str| {
        format!(
            r#"{{"type":"assistant","uuid":"u{idx}","timestamp":"2026-09-22T15:01:00.000Z","message":{{"role":"assistant","content":[{{"type":"text","text":"回答"}}]{model}}}}}"#
        )
    };
    let delta = read(&[line(1, r#","model":"qwen/qwen3.8-27b""#), line(2, "")]);
    assert_eq!(delta.messages.len(), 2);
    assert_eq!(delta.messages[0].model.as_deref(), Some("qwen/qwen3.8-27b"));
    assert_eq!(
        delta.messages[0].provider, None,
        "no provider field in the source → NULL, never branding"
    );
    assert_eq!(delta.messages[1].model, None, "missing field stays NULL");
}

#[test]
fn overrides_are_passed_as_the_command_line_spells_them() {
    let install = AgentInstallation {
        agent: Agent::ClaudeCode,
        executable_path: "/bin/agent".to_string(),
        version: None,
    };
    let opts = ExecOptions {
        model: Some("opus".to_string()),
        provider: None,
        effort: Some("high".to_string()),
    };
    let cmd = ClaudeAdapter::build_resume_command(&install, &opts, "s1", &None);
    assert!(cmd.args.windows(2).any(|w| w[0] == "--model" && w[1] == "opus"));
    assert!(cmd.args.windows(2).any(|w| w[0] == "--effort" && w[1] == "high"));
    assert!(cmd.args.contains(&"s1".to_string()));
    let plain = ClaudeAdapter::build_new_command(&install, &ExecOptions::default(), &None);
    assert!(plain.args.is_empty());
}

#[test]
fn a_bad_file_does_not_end_the_search() {
    let own = |name: &str| file(name, &(member_line(1, "user", "user", "你好") + "\n"));
    let files = vec![own("s1.jsonl"), file("bad.jsonl", "not json"), own("s2.jsonl")];
    let found = ClaudeAdapter::discover_members_in(&files, &Vec::new());
    let paths: Vec<&str> = found.iter().map(|m| m.source_path.as_str()).collect();
    assert_eq!(paths, vec!["/projects/s1.jsonl", "/projects/s2.jsonl"]);
    assert!(found.iter().all(|m| m.agent == Agent::ClaudeCode));
    let unchanged = vec!["/projects/s1.jsonl".to_string(), "/projects/s2.jsonl".to_string()];
    assert!(ClaudeAdapter::discover_members_in(&files, &unchanged).is_empty());
}

#[test]
fn an_extraction_leaves_no_session_behind() {
    let install = AgentInstallation {
        agent: Agent::ClaudeCode,
        executable_path: "/bin/agent".to_string(),
        version: None,
    };
    let cmd = ClaudeAdapter::build_context_extraction_command(
        &install,
        &ExecOptions::default(),
        "summarise",
        "/runtime",
    );
    assert_eq!(
        cmd.args,
        vec!["-p", "--no-session-persistence", "--output-format", "text", "summarise"]
    );
    assert_eq!(cmd.cwd.as_deref(), Some("/runtime"));
}
