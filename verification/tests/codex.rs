//! Codex.
use noending::adapters::codex::{
    is_forked_page_name, thread_id_from_filename, CodexAdapter, ThreadNames,
};
use noending::adapters::reader::{MemberReadDelta, SourceFile};
use noending::adapters::{inspect_file_source, DiscoveredMemberKind, ExecOptions, FileProbe};
use noending::domain::{
    Agent, AgentInstallation, SessionMemberCursor, SessionMemberRelation, SessionMessageRole,
    SourceAvailability, StatsUpdate,
};
use noending::paths::FoundFile;

const SESSION_ID: &str = "01a0bee7-6afb-7622-afcd-e26c61dd545d";

fn quoted(s: &str) -> String {
    serde_json::to_string(s).unwrap()
}

fn meta_line() -> String {
    meta_line_with(&format!(
        r#"{{"session_id":"{SESSION_ID}","id":"{SESSION_ID}","timestamp":"2026-09-20T13:00:32.388Z","cwd":"/tmp/proj"}}"#
    ))
}

fn meta_line_with(payload: &str) -> String {
    format!(
        r#"{{"timestamp":"2026-09-20T13:01:47.832Z","ordinal":0,"type":"session_meta","payload":{payload}}}"#
    )
}

fn message_line(ordinal: usize, role: &str, text: &str) -> String {
    format!(
        r#"{{"timestamp":"2026-09-20T13:01:48.000Z","ordinal":{ordinal},"type":"response_item","payload":{{"type":"message","id":"m{ordinal}","role":"{role}","content":[{{"type":"input_text","text":{}}}]}}}}"#,
        quoted(text)
    )
}

fn tool_line(ordinal: usize) -> String {
    format!(
        r#"{{"timestamp":"2026-09-20T13:01:48.000Z","ordinal":{ordinal},"type":"response_item","payload":{{"type":"function_call","id":"c{ordinal}","name":"shell"}}}}"#
    )
}

fn reasoning_line(ordinal: usize) -> String {
    format!(
        r#"{{"timestamp":"2026-09-20T13:01:48.000Z","ordinal":{ordinal},"type":"response_item","payload":{{"type":"reasoning","id":"r{ordinal}","summary":[]}}}}"#
    )
}

fn compact_line(ordinal: usize) -> String {
    format!(
        r#"{{"timestamp":"2026-09-20T13:01:49.000Z","ordinal":{ordinal},"type":"event_msg","payload":{{"type":"compact"}}}}"#
    )
}

fn index_line(id: &str, name: &str) -> String {
    format!(
        r#"{{"id":"{id}","thread_name":{},"updated_at":"2026-09-20T13:00:00Z"}}"#,
        quoted(name)
    )
}

fn rollout(name: &str, lines: &[String]) -> FoundFile {
    let text = lines.join("\n") + "\n";
    FoundFile {
        path: format!("/sessions/{name}"),
        name: name.to_string(),
        ancestors: Vec::new(),
        modified: None,
        head: text.lines().map(|l| l.to_string()).collect(),
        data: text.into_bytes(),
    }
}

fn source(lines: &[String]) -> SourceFile {
    SourceFile {
        identity: "1:1".to_string(),
        mtime: None,
        data: (lines.join("\n") + "\n").into_bytes(),
    }
}

fn read(relation: SessionMemberRelation, lines: &[String]) -> MemberReadDelta {
    CodexAdapter::read_member_delta(relation, &source(lines), &SessionMemberCursor::start())
}

#[test]
fn first_user_text_survives_meta_on_line_zero() {
    let file = rollout(
        "rollout-titled.jsonl",
        &[
            meta_line(),
            message_line(2, "developer", "<app-context>\n# Codex desktop context"),
            message_line(5, "user", "<recommended_plugins>\nDro is available…"),
            message_line(6, "user", "# AGENTS.md instructions for /tmp/proj"),
            message_line(8, "user", "我想对整体工程进行代码瘦身，请给出优化方案"),
        ],
    );
    let m = CodexAdapter::parse_member(&file).ok().unwrap();
    assert_eq!(m.source_member_id, SESSION_ID);
    assert!(matches!(m.kind, DiscoveredMemberKind::Root));
    assert_eq!(m.cwd.as_deref(), Some("/tmp/proj"));
    assert_eq!(
        m.first_user_text.as_deref(),
        Some("我想对整体工程进行代码瘦身，请给出优化方案")
    );
}

#[test]
fn a_forked_page_is_its_own_logical_root_with_the_fork_as_parent() {
    let base = "019f135a-621c-76a1-a76c-7c71021847aa";
    let own = "01a0c943-53b8-7e82-8f84-0c2b33da8801";
    let file = rollout(
        &format!("rollout-2026-09-22T21-17-07-{base}_{own}.jsonl"),
        &[
            meta_line_with(&format!(
                r#"{{"session_id":"{base}","id":"{base}","cwd":"/tmp/proj","thread_source":"user","history_mode":"paginated","history_base":{{"thread_id":"{base}","end_ordinal_exclusive":90}}}}"#
            )),
            message_line(90, "user", "接着上面继续"),
        ],
    );
    let m = CodexAdapter::parse_member(&file).ok().unwrap();
    assert_eq!(m.source_member_id, own, "the file's name owns the identity");
    assert!(matches!(m.kind, DiscoveredMemberKind::ForkRoot));
    assert_eq!(m.parent_source_member_id.as_deref(), Some(base));
    assert_eq!(m.first_user_text.as_deref(), Some("接着上面继续"));
}

#[test]
fn internal_thread_sources_map_to_child_and_side() {
    let parent = "019f135a-621c-76a1-a76c-7c71021847aa";
    let sub = rollout(
        &format!("rollout-2026-09-20T21-01-47-{SESSION_ID}.jsonl"),
        &[meta_line_with(&format!(
            r#"{{"session_id":"{SESSION_ID}","id":"{SESSION_ID}","cwd":"/tmp/proj","thread_source":"subagent","parent_thread_id":"{parent}"}}"#
        ))],
    );
    let m = CodexAdapter::parse_member(&sub).ok().unwrap();
    assert!(matches!(m.kind, DiscoveredMemberKind::Child));
    assert_eq!(m.parent_source_member_id.as_deref(), Some(parent));
    assert_eq!(m.root_hint.as_deref(), Some(parent));
    assert_eq!(m.native_title, None);
    assert_eq!(m.first_user_text, None);

    let gid = "01b0bee7-6afb-7622-afcd-e26c61dd545d";
    let review = rollout(
        &format!("rollout-2026-09-20T22-01-47-{gid}.jsonl"),
        &[meta_line_with(&format!(
            r#"{{"session_id":"{gid}","id":"{gid}","cwd":"/tmp/proj","thread_source":"guardian_review","parent_thread_id":"{parent}"}}"#
        ))],
    );
    let m = CodexAdapter::parse_member(&review).ok().unwrap();
    assert!(matches!(m.kind, DiscoveredMemberKind::Side));
}

#[test]
fn meta_only_file_parses_without_user_text() {
    let file = rollout("rollout-meta-only.jsonl", &[meta_line()]);
    let m = CodexAdapter::parse_member(&file).ok().unwrap();
    assert_eq!(m.source_member_id, SESSION_ID);
    assert_eq!(m.cwd.as_deref(), Some("/tmp/proj"));
    assert_eq!(m.first_user_text, None);
}

#[test]
fn the_root_read_keeps_prose_and_counts_the_machine_traffic() {
    let delta = read(
        SessionMemberRelation::Root,
        &[
            meta_line(),
            message_line(1, "user", "先检查一下代码"),
            message_line(2, "assistant", "我先看现状。"),
            reasoning_line(3),
            tool_line(4),
            message_line(5, "assistant", "问题在这里，已经修改完成。"),
            compact_line(6),
            message_line(7, "developer", "<permissions>"),
        ],
    );
    let msgs = &delta.messages;
    assert_eq!(msgs.len(), 3, "both visible prose segments survive");
    assert_eq!(msgs[0].role, SessionMessageRole::User);
    assert_eq!(msgs[0].content, "先检查一下代码");
    assert_eq!(msgs[1].role, SessionMessageRole::Assistant);
    assert_eq!(
        msgs[1].content, "我先看现状。",
        "prose before the tool call"
    );
    assert_eq!(
        msgs[2].content, "问题在这里，已经修改完成。",
        "prose after the tool call"
    );
    assert_eq!(msgs[0].source_message_id.as_deref(), Some("m1"));
    // reasoning → nothing, tool call → tool_call_count, compact → count.
    match delta.stats {
        Some(StatsUpdate::Snapshot(s)) => {
            assert_eq!(s.tool_call_count, Some(1));
            assert_eq!(s.compaction_count, Some(1));
            assert_eq!(s.side_activity_count, Some(0));
        }
        other => panic!("expected a full-scan snapshot, got {other:?}"),
    }
}

#[test]
fn an_injected_user_block_is_not_conversation() {
    let delta = read(
        SessionMemberRelation::Root,
        &[
            meta_line(),
            message_line(
                1,
                "user",
                "<environment_context>\ncwd: /tmp/proj\n</environment_context>",
            ),
            message_line(2, "user", "# AGENTS.md instructions"),
            message_line(3, "user", "真正的问题"),
        ],
    );
    assert_eq!(delta.messages.len(), 1);
    assert_eq!(delta.messages[0].content, "真正的问题");
}

#[test]
fn an_agent_message_envelope_is_observed_not_stored() {
    let envelope = r#"{"timestamp":"2026-09-20T13:01:49.000Z","ordinal":9,"type":"response_item","payload":{"type":"agent_message","id":"amsg_9","author":"/root/design_review","recipient":"/root","content":[{"type":"input_text","text":"Message Type: FINAL_ANSWER\nPayload:\n改完了"}]}}"#;
    let delta = read(
        SessionMemberRelation::Root,
        &[
            meta_line(),
            envelope.to_string(),
            message_line(10, "assistant", "收到，已合并。"),
        ],
    );
    assert_eq!(delta.messages.len(), 1, "the envelope is not conversation");
    match delta.stats {
        Some(StatsUpdate::Snapshot(s)) => {
            assert_eq!(s.side_activity_count, Some(1));
        }
        other => panic!("expected snapshot, got {other:?}"),
    }
}

#[test]
fn codex_a_child_member_produces_observations_only() {
    let parent = "019f135a-621c-76a1-a76c-7c71021847aa";
    let delta = read(
        SessionMemberRelation::Child,
        &[
            meta_line_with(&format!(
                r#"{{"session_id":"{SESSION_ID}","id":"{SESSION_ID}","cwd":"/tmp/proj","thread_source":"subagent","parent_thread_id":"{parent}"}}"#
            )),
            message_line(2, "user", "The following is the Codex agent history…"),
            message_line(9, "assistant", "有阻断项，按严重度如下。"),
        ],
    );
    assert!(
        delta.messages.is_empty(),
        "child transcript text never becomes conversation"
    );
}

#[test]
fn the_index_names_a_thread_that_its_transcript_cannot() {
    let file = rollout(
        &format!("rollout-2026-09-20T21-01-47-{SESSION_ID}.jsonl"),
        &[
            meta_line(),
            message_line(
                3,
                "user",
                "任务看板界面右上角的那个新建任务按钮 去掉 前边的“+”",
            ),
        ],
    );
    let index = format!("{}\n", index_line(SESSION_ID, "移除新建任务按钮加号"));
    let names = ThreadNames::load(&vec![index.into_bytes()]);
    let found = CodexAdapter::discover_member(&file, &names).unwrap();
    assert_eq!(
        found.native_title.as_deref(),
        Some("移除新建任务按钮加号")
    );
}

#[test]
fn a_placeholder_name_is_not_a_native_title() {
    let long = "这是一个初始godot引擎工程，我该如何在该工程里使用godot mcp：/Users/jqk/projects/r/godot-mcp";
    let cut: String = long.chars().take(59).collect();
    // Shorter than the cut: the index stores the message verbatim.
    let short = "如何让你能够接管收发微信消息？";
    let file = rollout(
        &format!("rollout-2026-09-20T21-01-47-{SESSION_ID}.jsonl"),
        &[meta_line(), message_line(3, "user", long)],
    );
    let index = format!(
        "{}\n{}\n",
        index_line(SESSION_ID, &format!("{cut}…")),
        index_line("019ff12a-3a13-7553-b629-9c7403deb658", short)
    );
    let names = ThreadNames::load(&vec![index.into_bytes()]);
    let found = CodexAdapter::discover_member(&file, &names).unwrap();
    assert_eq!(
        found.native_title, None,
        "a cut first message is not a name"
    );
    assert_eq!(found.first_user_text.as_deref(), Some(long));
    assert_eq!(
        names.title_for(
            "019ff12a-3a13-7553-b629-9c7403deb658",
            &Some(short.to_string())
        ),
        None,
        "verbatim-equal to the first message is the same placeholder"
    );
}

#[test]
fn codex_inspect_reports_missing_only_for_a_confirmed_absent_file() {
    assert_eq!(
        inspect_file_source(FileProbe::File),
        SourceAvailability::Present
    );
    assert_eq!(
        inspect_file_source(FileProbe::NotFound),
        SourceAvailability::Missing
    );
}

#[test]
fn an_unreadable_source_is_unavailable_and_not_missing() {
    assert_eq!(
        inspect_file_source(FileProbe::Failed),
        SourceAvailability::Unavailable
    );
    assert_eq!(
        inspect_file_source(FileProbe::NotAFile),
        SourceAvailability::Unavailable
    );
}

#[test]
fn a_rollout_without_an_identity_is_an_error() {
    let file = rollout("rollout-x.jsonl", &["{\"type\":\"event_msg\"}".to_string()]);
    let e = CodexAdapter::parse_member(&file).err().unwrap();
    assert_eq!(
        e.message(),
        "无法解析 Codex session id: /sessions/rollout-x.jsonl"
    );
}

#[test]
fn the_thread_is_in_the_name_of_the_file() {
    let name = format!("rollout-2026-09-20T21-01-47-{SESSION_ID}.jsonl");
    assert_eq!(thread_id_from_filename(&name).as_deref(), Some(SESSION_ID));
    assert_eq!(thread_id_from_filename("other.jsonl"), None);
    assert!(!is_forked_page_name(&name));
}

fn install() -> AgentInstallation {
    AgentInstallation {
        agent: Agent::Codex,
        executable_path: "/bin/codex".to_string(),
        version: None,
    }
}

#[test]
fn what_is_not_overridden_is_not_passed() {
    let none = ExecOptions::default();
    let cmd = CodexAdapter::build_new_command(
        &install(),
        &none,
        &Some("ctx".to_string()),
        &Some("/repo".to_string()),
    );
    assert_eq!(cmd.program, "/bin/codex");
    assert_eq!(cmd.cwd.as_deref(), Some("/repo"));
    assert_eq!(cmd.args, vec!["ctx"]);
    let resumed =
        CodexAdapter::build_resume_command(&install(), &none, "thread-1", &None, &None);
    assert_eq!(resumed.args, vec!["resume", "thread-1"]);
}

#[test]
fn a_reading_goes_on_where_the_last_one_ended() {
    let first = vec![meta_line(), message_line(1, "user", "一")];
    let mut grown = first.clone();
    grown.push(message_line(2, "assistant", "二"));
    let a = read(SessionMemberRelation::Root, &first);
    let at = a.source.as_ref().unwrap();
    let cursor = SessionMemberCursor {
        source_file_identity: at.file_identity.clone(),
        generation: at.generation,
        byte_offset: at.byte_offset,
        last_seen_size: at.last_seen_size,
        mtime: at.mtime,
        prefix_hash: at.prefix_hash.clone(),
        active_provider: None,
        active_model: None,
    };
    let b = CodexAdapter::read_member_delta(SessionMemberRelation::Root, &source(&grown), &cursor);
    assert_eq!(b.messages.len(), 1);
    assert_eq!(b.messages[0].content, "二");
    let next = b.source.as_ref().unwrap();
    assert_eq!(next.generation, at.generation);
    assert_eq!(next.start_byte_offset, at.byte_offset);
    assert_eq!(next.byte_offset, source(&grown).data.len() as u64);
    assert_eq!(at.prefix_hash.len(), 64);

    // Another content under the same name is read from its start.
    let other = vec![meta_line(), message_line(1, "user", "另")];
    let mut rewritten = source(&other);
    rewritten.mtime = Some(5);
    let c = CodexAdapter::read_member_delta(SessionMemberRelation::Root, &rewritten, &cursor);
    assert_eq!(c.messages.len(), 1);
    assert_eq!(c.messages[0].content, "另");
    assert_eq!(c.source.as_ref().unwrap().generation, at.generation + 1);

    // What did not change is not read.
    let d = CodexAdapter::read_member_delta(SessionMemberRelation::Root, &source(&first), &cursor);
    assert!(d.messages.is_empty());
    assert_eq!(d.source.as_ref().unwrap().byte_offset, at.byte_offset);
    assert!(d.stats.is_none());
}

#[test]
fn members_are_found_beside_files_of_others() {
    let name = format!("rollout-2026-09-20T21-00-32-{SESSION_ID}.jsonl");
    let own = rollout(&name, &[meta_line(), message_line(1, "user", "修复登录")]);
    let foreign = rollout("rollout-foreign.jsonl", &["{}".to_string()]);
    let other_name = rollout("history.jsonl", &[meta_line()]);
    let path = own.path.clone();
    let names = ThreadNames::load(&vec![index_line(SESSION_ID, "登录修复").into_bytes()]);
    let files = vec![foreign, own, other_name];
    let found = CodexAdapter::discover_members_in(&files, &names, &Vec::new());
    assert_eq!(found.len(), 1);
    assert_eq!(found[0].agent, Agent::Codex);
    assert_eq!(found[0].source_member_id, SESSION_ID);
    assert_eq!(found[0].native_title.as_deref(), Some("登录修复"));
    assert!(CodexAdapter::discover_members_in(&files, &names, &vec![path]).is_empty());
}

fn with_ends(lines: &[String], end: &str) -> SourceFile {
    let mut text = String::new();
    for line in lines {
        text.push_str(line);
        text.push_str(end);
    }
    SourceFile {
        identity: "1:1".to_string(),
        mtime: None,
        data: text.into_bytes(),
    }
}

fn cursor_at(delta: &MemberReadDelta) -> SessionMemberCursor {
    let at = delta.source.as_ref().unwrap();
    SessionMemberCursor {
        source_file_identity: at.file_identity.clone(),
        generation: at.generation,
        byte_offset: at.byte_offset,
        last_seen_size: at.last_seen_size,
        mtime: at.mtime,
        prefix_hash: at.prefix_hash.clone(),
        active_provider: None,
        active_model: None,
    }
}

#[test]
fn lines_that_end_in_two_characters_are_read_once_each() {
    let root = SessionMemberRelation::Root;
    let first = vec![meta_line(), message_line(1, "user", "一")];
    let mut grown = first.clone();
    grown.push(message_line(2, "assistant", "二"));
    grown.push(message_line(3, "user", "三"));
    let a = CodexAdapter::read_member_delta(
        root,
        &with_ends(&first, "\r\n"),
        &SessionMemberCursor::start(),
    );
    assert_eq!(a.messages.len(), 1);
    let later = with_ends(&grown, "\r\n");
    let b = CodexAdapter::read_member_delta(root, &later, &cursor_at(&a));
    let said: Vec<&str> = b.messages.iter().map(|m| m.content.as_str()).collect();
    assert_eq!(said, vec!["二", "三"]);
    assert_eq!(b.messages[0].source_position, "line:3");
    let next = b.source.as_ref().unwrap();
    assert_eq!(next.generation, 0);
    assert_eq!(next.start_byte_offset, with_ends(&first, "\r\n").data.len() as u64);
    assert_eq!(next.byte_offset, later.data.len() as u64);
}

#[test]
fn an_unfinished_line_is_left_for_later_whatever_ends_the_others() {
    let root = SessionMemberRelation::Root;
    let whole = vec![meta_line(), message_line(1, "user", "一")];
    for end in ["\n", "\r\n"] {
        let mut file = with_ends(&whole, end);
        let complete = file.data.len() as u64;
        file.data
            .extend_from_slice(message_line(2, "assistant", "二").as_bytes());
        let a = CodexAdapter::read_member_delta(root, &file, &SessionMemberCursor::start());
        assert_eq!(a.messages.len(), 1);
        assert_eq!(a.source.as_ref().unwrap().byte_offset, complete);
        let cursor = cursor_at(&a);
        file.data.extend_from_slice(end.as_bytes());
        let b = CodexAdapter::read_member_delta(root, &file, &cursor);
        assert_eq!(b.messages.len(), 1);
        assert_eq!(b.messages[0].content, "二");
        assert_eq!(b.source.as_ref().unwrap().byte_offset, file.data.len() as u64);
    }
}
