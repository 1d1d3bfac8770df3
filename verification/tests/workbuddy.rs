//! WorkBuddy.
use noending::adapters::reader::SourceFile;
use noending::adapters::workbuddy::{classify_user_turn, UserTurn, WorkBuddyAdapter};
use noending::domain::{Agent, SessionMemberCursor};
use noending::paths::FoundFile;

#[test]
fn the_envelope_is_not_the_user_turn() {
    let enveloped = "<system-reminder data-role=\"user-context\">\n<user_info>\nOS Version: darwin\n</user_info>\n</system-reminder>\n<user_query>看一下这只股票</user_query>";
    assert!(matches!(
        classify_user_turn(enveloped),
        UserTurn::Prompt(p) if p == "看一下这只股票"
    ));
    // A `user`-role compaction replay is machine context, not a turn.
    assert!(matches!(
        classify_user_turn("<cb_summary>Summary of the conversation so far: …</cb_summary>"),
        UserTurn::Compaction
    ));
    assert!(matches!(
        classify_user_turn("<conversation_history_summary>x</conversation_history_summary>"),
        UserTurn::Compaction
    ));
    // A bare envelope with no prompt inside carries nothing to ingest.
    assert!(matches!(
        classify_user_turn(
            "<system-reminder data-role=\"user-context\">only context</system-reminder>"
        ),
        UserTurn::Envelope
    ));
    // Plain prose is a prompt, and so is a continuation nudge.
    assert!(matches!(
        classify_user_turn("帮我看看这个"),
        UserTurn::Prompt(p) if p == "帮我看看这个"
    ));
}

fn session_lines() -> String {
    [
        r#"{"id":"m1","timestamp":1783137449113,"type":"message","role":"user","content":[{"type":"input_text","text":"<system-reminder data-role=\"user-context\">\n<user_info>\nOS Version: darwin\n</user_info>\n</system-reminder>\n<user_query>整理一下昨天的会议纪要</user_query>"}],"providerData":{"provider":"zhipu"},"sessionId":"s1","cwd":"/Users/jqk/Workbuddy/x"}"#,
        r#"{"timestamp":1783137449152,"type":"file-history-snapshot","isSnapshotUpdate":false,"snapshot":{},"sessionId":"s1","cwd":"/Users/jqk/Workbuddy/x"}"#,
        r#"{"timestamp":1783137451207,"type":"ai-title","aiTitle":"整理会议纪要","sessionId":"s1","cwd":"/Users/jqk/Workbuddy/x"}"#,
        r#"{"id":"c1","timestamp":1783137453100,"type":"message","role":"user","content":[{"type":"input_text","text":"<cb_summary>Summary of the conversation so far: 很长的一段机器摘要</cb_summary>"}],"sessionId":"s1","cwd":"/Users/jqk/Workbuddy/x"}"#,
        r#"{"id":"r1","parentId":"m1","timestamp":1783137455212,"type":"reasoning","content":[{"type":"reasoning_text","text":"想一下"}],"rawContent":[{"type":"reasoning_text","text":"想一下"}],"sessionId":"s1","cwd":"/Users/jqk/Workbuddy/x"}"#,
        r#"{"id":"m2","parentId":"r1","timestamp":1783137455216,"type":"message","role":"assistant","status":"completed","content":[{"type":"output_text","text":"整理好了。"}],"providerData":{},"sessionId":"s1","cwd":"/Users/jqk/Workbuddy/x"}"#,
        r#"{"id":"m2","parentId":"r1","timestamp":1783137455225,"type":"function_call","callId":"call_1","name":"WebFetch","arguments":"{}","providerData":{},"sessionId":"s1","cwd":"/Users/jqk/Workbuddy/x"}"#,
        r#"{"id":"r2","parentId":"m2","timestamp":1783137455299,"type":"function_call_result","callId":"call_1","name":"WebFetch","status":"completed","output":{"type":"text","text":"page"},"sessionId":"s1","cwd":"/Users/jqk/Workbuddy/x"}"#,
    ]
    .join("\n")
        + "\n"
}

fn file(name: &str, text: &str) -> FoundFile {
    FoundFile {
        path: format!("/workbuddy/{name}"),
        name: name.to_string(),
        ancestors: Vec::new(),
        modified: None,
        head: text.lines().map(|l| l.to_string()).collect(),
        data: text.as_bytes().to_vec(),
    }
}

#[test]
fn discovery_reads_session_facts_and_the_first_real_prompt() {
    let s = WorkBuddyAdapter::discover_session(&file("s1.jsonl", &session_lines())).unwrap();
    assert_eq!(s.agent, Agent::WorkBuddy);
    assert_eq!(s.agent_session_id, "s1");
    assert_eq!(s.cwd.as_deref(), Some("/Users/jqk/Workbuddy/x"));
    assert_eq!(s.first_user_text.as_deref(), Some("整理一下昨天的会议纪要"));
    assert_eq!(
        s.native_title.as_deref(),
        Some("整理会议纪要"),
        "WorkBuddy titles the session itself"
    );
    // Epoch millis are normalized to the spelling every other agent uses.
    assert_eq!(
        s.started_at.as_deref(),
        Some("2026-07-04T03:57:29.113+00:00")
    );
}

#[test]
fn the_last_ai_title_wins() {
    let text = [
        r#"{"timestamp":1783137449113,"type":"message","role":"user","content":[{"type":"input_text","text":"<user_query>先看看通达信</user_query>"}],"sessionId":"s1","cwd":"/tmp/w"}"#,
        r#"{"timestamp":1783137451207,"type":"ai-title","aiTitle":"通达信连接功能介绍","sessionId":"s1"}"#,
        r#"{"timestamp":1783259041800,"type":"ai-title","aiTitle":"分析国轩高科股票","sessionId":"s1"}"#,
    ]
    .join("\n")
        + "\n";
    let found = WorkBuddyAdapter::discover_session(&file("s1.jsonl", &text)).unwrap();
    assert_eq!(found.native_title.as_deref(), Some("分析国轩高科股票"));
}

#[test]
fn ingest_keeps_prose_and_drops_reasoning_and_tool_traffic() {
    let source = SourceFile {
        identity: "1:1".to_string(),
        mtime: None,
        data: session_lines().into_bytes(),
    };
    let delta = WorkBuddyAdapter::read_delta(&source, &SessionMemberCursor::start());
    let kinds: Vec<(&str, &str)> = delta
        .events
        .iter()
        .map(|e| (e.kind.as_str(), e.text.as_deref().unwrap_or("")))
        .collect();
    assert_eq!(
        kinds,
        vec![
            // the envelope is stripped to the prompt, not ingested whole
            ("user_message", "整理一下昨天的会议纪要"),
            ("compact", "conversation compacted"),
            ("assistant_message", "整理好了。"),
        ],
        "got {kinds:?}"
    );
    // The event timestamp survives the millis → RFC3339 normalization.
    assert_eq!(
        delta.events[0].ts.as_deref(),
        Some("2026-07-04T03:57:29.113+00:00")
    );
}

#[test]
fn another_agents_transcript_is_not_claimed() {
    // A pi-shaped file (which also uses sessionId-free headers) and a
    // claude_code-shaped one must both be refused.
    let pi = file(
        "pi.jsonl",
        "{\"type\":\"session\",\"version\":3,\"id\":\"p1\",\"cwd\":\"/x\"}\n",
    );
    let chain = file(
        "chain.jsonl",
        "{\"type\":\"user\",\"sessionId\":\"c1\",\"uuid\":\"u1\",\"cwd\":\"/x\",\"message\":{\"role\":\"user\",\"content\":[]}}\n",
    );
    assert!(WorkBuddyAdapter::discover_session(&pi).is_none());
    assert!(WorkBuddyAdapter::discover_session(&chain).is_none());
}

#[test]
fn workbuddy_sessions_are_found_among_files() {
    let files = vec![
        file("a.jsonl", &session_lines()),
        file("b.jsonl", r#"{"unknown":true}"#),
    ];
    let found = WorkBuddyAdapter::discover_sessions_in(&files, &Vec::new());
    assert_eq!(found.len(), 1);
    assert_eq!(found[0].path, files[0].path);
    let unchanged = vec![files[0].path.clone()];
    assert!(WorkBuddyAdapter::discover_sessions_in(&files, &unchanged).is_empty());
}

#[test]
fn appended_events_are_read_behind_lines_that_end_in_two_characters() {
    let line = |id: &str, text: &str| {
        format!(
            r#"{{"id":"{id}","timestamp":1783137449113,"type":"message","role":"user","content":[{{"type":"input_text","text":"<user_query>{text}</user_query>"}}],"sessionId":"s1"}}"#
        ) + "\r\n"
    };
    let source = |text: String| SourceFile {
        identity: "1:1".to_string(),
        mtime: None,
        data: text.into_bytes(),
    };
    let first = line("a", "一");
    let a = WorkBuddyAdapter::read_delta(&source(first.clone()), &SessionMemberCursor::start());
    assert_eq!(a.events.len(), 1);
    let at = a.source.unwrap();
    let cursor = SessionMemberCursor {
        source_file_identity: at.file_identity,
        generation: at.generation,
        byte_offset: at.byte_offset,
        last_seen_size: at.last_seen_size,
        mtime: at.mtime,
        prefix_hash: at.prefix_hash,
        active_provider: None,
        active_model: None,
    };
    let grown = first + &line("b", "二") + r#"{"type":"message"}"#;
    let b = WorkBuddyAdapter::read_delta(&source(grown), &cursor);
    assert_eq!(b.events.len(), 1);
    assert_eq!(b.events[0].text.as_deref(), Some("二"));
    assert_eq!(b.events[0].source_position, "line:2");
    assert_eq!(b.source.unwrap().generation, 0);
}
