//! Pi.
use noending::adapters::pi::PiAdapter;
use noending::adapters::reader::{MemberReadDelta, SourceFile};
use noending::adapters::{inspect_file_source, DiscoveredMemberKind, FileProbe};
use noending::domain::{
    SessionMemberCursor, SessionMemberRelation, SessionMessageRole, SourceAvailability, StatsUpdate,
};
use noending::paths::FoundFile;

fn session_lines() -> String {
    [
        r#"{"type":"session","id":"p1","cwd":"/repo","version":3,"timestamp":"2026-09-18T12:40:00.000Z"}"#,
        r#"{"type":"message","id":"m1","parentId":"p1","timestamp":"2026-09-18T12:40:03.000Z","message":{"role":"user","content":[{"type":"text","text":"帮我看看这个"}]}}"#,
        r#"{"type":"message","id":"m2","parentId":"m1","timestamp":"2026-09-18T12:40:05.000Z","message":{"role":"assistant","content":[{"type":"thinking","thinking":"…"},{"type":"text","text":"看完了。"}]}}"#,
        r#"{"type":"message","id":"m3","parentId":"m2","timestamp":"2026-09-18T12:40:06.000Z","message":{"role":"toolResult","content":[{"type":"text","text":"file contents"}]}}"#,
        r#"{"type":"compaction","id":"c1","parentId":"m3","timestamp":"2026-09-18T12:40:07.000Z"}"#,
    ]
    .join("\n")
        + "\n"
}

fn file(name: &str, text: &str) -> FoundFile {
    FoundFile {
        path: format!("/sessions/{name}"),
        name: name.to_string(),
        ancestors: Vec::new(),
        modified: None,
        head: text.lines().map(|l| l.to_string()).collect(),
        data: text.as_bytes().to_vec(),
    }
}

fn read(text: &str) -> MemberReadDelta {
    let source = SourceFile {
        identity: "1:1".to_string(),
        mtime: None,
        data: text.as_bytes().to_vec(),
    };
    PiAdapter::read_member_delta(
        SessionMemberRelation::Root,
        &source,
        &SessionMemberCursor::start(),
    )
}

#[test]
fn discovery_claims_pi_files_by_fingerprint() {
    assert!(PiAdapter::discover_member(&file("b.jsonl", "{\"hello\":1}\n")).is_none());
    let found = PiAdapter::discover_member(&file("a.jsonl", &session_lines())).unwrap();
    assert_eq!(found.source_member_id, "p1");
    assert!(matches!(found.kind, DiscoveredMemberKind::Root));
    assert_eq!(found.cwd.as_deref(), Some("/repo"));
}

#[test]
fn the_root_read_keeps_prose_and_counts_compaction() {
    let delta = read(&session_lines());
    let texts: Vec<(SessionMessageRole, &str)> = delta
        .messages
        .iter()
        .map(|m| (m.role, m.content.as_str()))
        .collect();
    assert_eq!(
        texts,
        vec![
            (SessionMessageRole::User, "帮我看看这个"),
            (SessionMessageRole::Assistant, "看完了。")
        ],
        "the toolResult message stays out of the conversation"
    );
    assert_eq!(delta.messages[0].source_message_id.as_deref(), Some("m1"));
    match delta.stats {
        Some(StatsUpdate::Snapshot(s)) => {
            assert_eq!(s.compaction_count, Some(1));
            assert_eq!(s.tool_call_count, None);
            assert_eq!(s.tool_error_count, None);
            assert_eq!(s.side_activity_count, None);
        }
        other => panic!("expected snapshot, got {other:?}"),
    }
}

#[test]
fn pi_inspect_reports_missing_only_for_a_confirmed_absent_file() {
    assert_eq!(
        inspect_file_source(FileProbe::File),
        SourceAvailability::Present
    );
    assert_eq!(
        inspect_file_source(FileProbe::NotFound),
        SourceAvailability::Missing
    );
}

#[test]
fn assistant_entries_carry_source_provider_and_model() {
    let line = |id: &str, made_by: &str| {
        format!(
            r#"{{"type":"message","id":"{id}","parentId":"p","timestamp":"2026-09-18T12:40:05.000Z","message":{{"role":"assistant","content":[{{"type":"text","text":"看完了。"}}]{made_by}}}}}"#
        )
    };
    let text = [
        line("m1", r#","provider":"openai-codex","model":"gpt-5.6-luna""#),
        line("m2", ""),
    ]
    .join("\n")
        + "\n";
    let delta = read(&text);
    assert_eq!(delta.messages.len(), 2);
    assert_eq!(delta.messages[0].provider.as_deref(), Some("openai-codex"));
    assert_eq!(delta.messages[0].model.as_deref(), Some("gpt-5.6-luna"));
    assert_eq!(delta.messages[1].provider, None);
    assert_eq!(delta.messages[1].model, None);
}

#[test]
fn pi_members_are_found_among_files() {
    let files = vec![
        file("s.jsonl", &session_lines()),
        file("other.jsonl", r#"{"sessionId":"x"}"#),
    ];
    let found = PiAdapter::discover_members_in(&files, &Vec::new());
    assert_eq!(found.len(), 1);
    assert_eq!(found[0].source_path, files[0].path);
    let unchanged = vec![files[0].path.clone()];
    assert!(PiAdapter::discover_members_in(&files, &unchanged).is_empty());
}
