//! AutoClaw.
use noending::adapters::autoclaw::AutoClawAdapter;
use noending::adapters::fingerprint::detect_format;
use noending::adapters::reader::SourceFile;
use noending::adapters::{inspect_file_source, DiscoveredMemberKind, FileProbe};
use noending::domain::{
    Agent, SessionMemberCursor, SessionMemberRelation, SessionMessageRole, SourceAvailability,
    StatsUpdate,
};
use noending::paths::{FoundDir, FoundFile};

fn session_lines() -> String {
    [
        r#"{"type":"session","version":3,"id":"4a6255bc-612b-494b-9e7e-3c5d7e58f088","timestamp":"2026-09-18T12:40:00.000Z","cwd":"/Users/jqk/WorkBuddy/x"}"#,
        r#"{"type":"model_change","id":"e1","parentId":"4a6255bc","timestamp":"2026-09-18T12:40:01.000Z","provider":"zhipu","modelId":"glm-5"}"#,
        r#"{"type":"custom","customType":"session-context","data":{"k":1},"id":"e2","parentId":"e1","timestamp":"2026-09-18T12:40:02.000Z"}"#,
        r#"{"type":"message","id":"m1","parentId":"e2","timestamp":"2026-09-18T12:40:03.000Z","message":{"role":"user","content":[{"type":"text","text":"把日报整理一下"}]}}"#,
        r#"{"type":"message","id":"m2","parentId":"m1","timestamp":"2026-09-18T12:40:05.000Z","message":{"role":"assistant","content":[{"type":"thinking","thinking":"…"},{"type":"toolCall","name":"read","arguments":{}}]}}"#,
        r#"{"type":"message","id":"m3","parentId":"m2","timestamp":"2026-09-18T12:40:06.000Z","message":{"role":"toolResult","toolCallId":"t1","content":[{"type":"text","text":"file contents"}]}}"#,
        r#"{"type":"message","id":"m4","parentId":"m3","timestamp":"2026-09-18T12:40:09.000Z","message":{"role":"assistant","content":[{"type":"thinking","thinking":"…"},{"type":"text","text":"日报已整理好。"}]}}"#,
    ]
    .join("\n")
        + "\n"
}

fn file(dirs: &[&str], name: &str, text: &str) -> FoundFile {
    // `dirs` runs from the outermost directory to the one that holds the file.
    let mut ancestors = Vec::new();
    for k in (0..dirs.len()).rev() {
        ancestors.push(FoundDir {
            path: format!("/{}", dirs[..=k].join("/")),
            name: dirs[k].to_string(),
        });
    }
    FoundFile {
        path: format!("/{}/{}", dirs.join("/"), name),
        name: name.to_string(),
        ancestors,
        modified: None,
        head: text.lines().map(|l| l.to_string()).collect(),
        data: text.as_bytes().to_vec(),
    }
}

#[test]
fn discovery_claims_only_its_own_directory_shape() {
    let sessions = ["root", "agents", "auto-coder", "sessions"];
    let files = vec![
        file(
            &sessions,
            "4a6255bc-612b-494b-9e7e-3c5d7e58f088.jsonl",
            &session_lines(),
        ),
        // Not a transcript: the index, and the runtime trace beside it.
        file(&sessions, "sessions.json", "{}"),
        file(
            &sessions,
            "4a6255bc-612b-494b-9e7e-3c5d7e58f088.trajectory.jsonl",
            "{\"type\":\"trace\"}\n",
        ),
        // Right file name, wrong place: the shape is the evidence.
        file(&["root", "elsewhere"], "abc.jsonl", &session_lines()),
        // Right place, but not a session header first.
        file(&sessions, "b2.jsonl", "{\"hello\":\"world\"}\n"),
    ];
    let found: Vec<_> = files
        .iter()
        .filter_map(|f| AutoClawAdapter::parse_member(f))
        .collect();
    assert_eq!(found.len(), 1, "one transcript");
    let m = &found[0];
    assert_eq!(m.agent, Agent::AutoClaw);
    assert_eq!(
        m.source_member_id,
        "auto-coder:4a6255bc-612b-494b-9e7e-3c5d7e58f088"
    );
    assert!(matches!(m.kind, DiscoveredMemberKind::Root));
    assert_eq!(m.cwd.as_deref(), Some("/Users/jqk/WorkBuddy/x"));
    assert_eq!(m.started_at.as_deref(), Some("2026-09-18T12:40:00.000Z"));
    assert_eq!(m.first_user_text.as_deref(), Some("把日报整理一下"));
}

#[test]
fn the_bytes_themselves_fingerprint_as_pi() {
    let head: Vec<String> = session_lines().lines().map(|l| l.to_string()).collect();
    assert_eq!(
        detect_format(&head),
        Some(Agent::Pi),
        "if this ever changes, the root-as-provenance rule can be revisited"
    );
}

#[test]
fn ingest_keeps_the_conversation_and_counts_the_tool_traffic() {
    let source = SourceFile {
        identity: "1:1".to_string(),
        mtime: None,
        data: session_lines().into_bytes(),
    };
    let delta = AutoClawAdapter::read_member_delta(
        SessionMemberRelation::Root,
        &source,
        &SessionMemberCursor::start(),
    );
    let roles: Vec<(SessionMessageRole, &str)> = delta
        .messages
        .iter()
        .map(|m| (m.role, m.content.as_str()))
        .collect();
    assert_eq!(
        roles,
        vec![
            (SessionMessageRole::User, "把日报整理一下"),
            (SessionMessageRole::Assistant, "日报已整理好。"),
        ],
        "got {roles:?}"
    );
    assert_eq!(
        delta.messages[0].source_message_id.as_deref(),
        Some("m1"),
        "identity comes from the entry id"
    );
    match delta.stats {
        Some(StatsUpdate::Snapshot(s)) => {
            assert_eq!(s.tool_call_count, Some(1));
        }
        other => panic!("expected snapshot, got {other:?}"),
    }
}

#[test]
fn autoclaw_inspect_reports_missing_only_for_a_confirmed_absent_file() {
    assert_eq!(
        inspect_file_source(FileProbe::File),
        SourceAvailability::Present
    );
    assert_eq!(
        inspect_file_source(FileProbe::NotFound),
        SourceAvailability::Missing
    );
}

#[test]
fn autoclaw_is_not_launched() {
    assert!(AutoClawAdapter::build_new_command().is_err());
    assert!(AutoClawAdapter::build_resume_command().is_err());
    assert!(AutoClawAdapter::build_exec_command().is_err());
}

#[test]
fn autoclaw_members_are_found_among_files() {
    let files = vec![
        file(&["agents", "main", "sessions"], "a.jsonl", &session_lines()),
        file(&["agents", "main", "other"], "b.jsonl", &session_lines()),
    ];
    let found = AutoClawAdapter::discover_members_in(&files, &Vec::new());
    assert_eq!(found.len(), 1);
    assert_eq!(found[0].source_path, "/agents/main/sessions/a.jsonl");
    let unchanged = vec![files[0].path.clone()];
    assert!(AutoClawAdapter::discover_members_in(&files, &unchanged).is_empty());
}
