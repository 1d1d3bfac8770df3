//! Qoder.
use noending::adapters::qoder::{
    is_resolved_title, title_of_row, QoderAdapter, SessionTitles, TitleRow,
};
use noending::adapters::reader::{MemberReadDelta, SourceFile};
use noending::adapters::DiscoveredMemberKind;
use noending::domain::{
    ParsedSessionMessage, SessionMemberCursor, SessionMemberRelation, SessionMessageRole,
    StatsUpdate,
};
use noending::paths::{FoundDir, FoundFile};

fn main_lines() -> String {
    [
        r#"{"type":"workspace-directories","sessionId":"s-main","directories":["/repo"]}"#,
        r#"{"type":"runtime-config","sessionId":"s-main","model":"dfmodel","timestamp":1790089288825}"#,
        r#"{"type":"user","uuid":"u1","timestamp":"2026-09-22T15:01:29.551Z","cwd":"/repo","sessionId":"s-main","message":{"role":"user","content":[{"type":"text","text":"把详情页的消息改一下"}]}}"#,
        r#"{"type":"attachment","uuid":"a1","timestamp":"2026-09-22T15:01:29.552Z","sessionId":"s-main","attachment":{"type":"skill_listing"}}"#,
        r#"{"type":"assistant","uuid":"u2","timestamp":"2026-09-22T15:01:31.000Z","cwd":"/repo","sessionId":"s-main","message":{"role":"assistant","content":[{"type":"text","text":"好，我先看现状。"},{"type":"tool_use","name":"Read"}]}}"#,
        r#"{"type":"user","uuid":"u3","timestamp":"2026-09-22T15:01:32.000Z","cwd":"/repo","sessionId":"s-main","toolUseResult":{"ok":true},"message":{"role":"user","content":[{"type":"tool_result","content":"file contents"}]}}"#,
        r#"{"type":"assistant","uuid":"u4","timestamp":"2026-09-22T15:01:40.000Z","isSidechain":true,"cwd":"/repo","sessionId":"s-main","message":{"role":"assistant","content":[{"type":"text","text":"子 Agent 的自述"}]}}"#,
    ]
    .join("\n")
        + "\n"
}

fn file(dirs: &[&str], name: &str, text: &str) -> FoundFile {
    // `dirs` runs from the outermost directory to the one that holds the file.
    let mut ancestors = Vec::new();
    for k in (0..dirs.len()).rev() {
        ancestors.push(FoundDir {
            path: format!("/{}", dirs[..=k].join("/")),
            name: dirs[k].to_string(),
        });
    }
    FoundFile {
        path: format!("/{}/{}", dirs.join("/"), name),
        name: name.to_string(),
        ancestors,
        modified: None,
        head: text.lines().map(|l| l.to_string()).collect(),
        data: text.as_bytes().to_vec(),
    }
}

fn read(relation: SessionMemberRelation, text: &str) -> MemberReadDelta {
    let source = SourceFile {
        identity: "1:1".to_string(),
        mtime: None,
        data: text.as_bytes().to_vec(),
    };
    QoderAdapter::read_member_delta(relation, &source, &SessionMemberCursor::start())
}

#[test]
fn qoder_the_root_read_keeps_prose_and_counts_the_rest() {
    let delta = read(SessionMemberRelation::Root, &main_lines());
    let texts: Vec<(SessionMessageRole, &str)> = delta
        .messages
        .iter()
        .map(|m| (m.role, m.content.as_str()))
        .collect();
    assert_eq!(
        texts,
        vec![
            (SessionMessageRole::User, "把详情页的消息改一下"),
            (SessionMessageRole::Assistant, "好，我先看现状。"),
        ],
        "the sidechain line and the tool-result line never become conversation"
    );
    match delta.stats {
        Some(StatsUpdate::Snapshot(s)) => {
            assert_eq!(s.tool_call_count, Some(1));
            assert_eq!(s.side_activity_count, Some(1));
        }
        other => panic!("expected snapshot, got {other:?}"),
    }
}

#[test]
fn subagent_transcripts_are_child_members_with_derived_identity() {
    let main = file(&["root", "-repo"], "s-main.jsonl", &main_lines());
    // No Qoder marker in the head, exactly like the real ones.
    let child_text = r#"{"type":"assistant","uuid":"c1","cwd":"/repo","sessionId":"s-main","message":{"role":"assistant","content":[{"type":"text","text":"子 Agent 的结论"}]}}
"#;
    let sub = file(
        &["root", "-repo", "s-main", "subagents"],
        "agent-aExplore-abc123.jsonl",
        child_text,
    );
    let root = QoderAdapter::discover_member(&main).unwrap();
    assert!(matches!(root.kind, DiscoveredMemberKind::Root));
    assert_eq!(root.source_member_id, "s-main");
    let child = QoderAdapter::discover_member(&sub).unwrap();
    assert!(matches!(child.kind, DiscoveredMemberKind::Child));
    assert_eq!(
        child.source_member_id,
        "s-main:subagent:agent-aExplore-abc123"
    );
    assert_eq!(child.parent_source_member_id.as_deref(), Some("s-main"));
    assert_eq!(
        child.first_user_text, None,
        "a child never carries a title source"
    );

    // The child's text is execution observation only.
    let delta = read(SessionMemberRelation::Child, child_text);
    assert!(
        delta.messages.is_empty(),
        "child transcript text never becomes conversation"
    );
}

#[test]
fn discovery_reads_session_facts() {
    let m = QoderAdapter::discover_member(&file(&["d"], "s-main.jsonl", &main_lines())).unwrap();
    assert!(matches!(m.kind, DiscoveredMemberKind::Root));
    assert_eq!(m.source_member_id, "s-main");
    assert_eq!(m.cwd.as_deref(), Some("/repo"));
    assert_eq!(
        m.started_at.as_deref(),
        Some("2026-09-22T15:01:29.551Z"),
        "epoch-millis bookkeeping timestamps must not win over ISO ones"
    );
    assert_eq!(m.first_user_text.as_deref(), Some("把详情页的消息改一下"));
}

#[test]
fn only_a_settled_title_is_a_native_title() {
    assert!(is_resolved_title(Some("ai")));
    assert!(is_resolved_title(Some("custom")));
    assert!(!is_resolved_title(Some("provisional")));
    assert!(!is_resolved_title(None));
}

#[test]
fn a_row_names_a_session_once_its_title_is_settled() {
    let settled = Some(r#"{"titleSource":"ai"}"#.to_string());
    let open = Some(r#"{"titleSource":"provisional"}"#.to_string());
    assert_eq!(title_of_row("详情页", &settled).as_deref(), Some("详情页"));
    assert_eq!(title_of_row("详情页", &open), None);
    assert_eq!(title_of_row("详情页", &None), None);
    assert_eq!(title_of_row("  ", &settled), None);
}

#[test]
fn assistant_rows_carry_their_model_but_synthetic_stays_null() {
    let line = |idx: usize, vtype: &str, model: &str| {
        let (role, text) = if vtype == "user" {
            ("user", "问")
        } else {
            ("assistant", "答")
        };
        format!(
            r#"{{"type":"{vtype}","uuid":"u{idx}","timestamp":"2026-09-20T15:01:{idx:02}.000Z","message":{{"role":"{role}","content":[{{"type":"text","text":"{text}"}}]{model}}}}}"#
        )
    };
    let text = [
        r#"{"type":"runtime-config","sessionId":"s","model":"dfmodel","timestamp":1790089288825}"#
            .to_string(),
        line(1, "user", ""),
        line(2, "assistant", r#","model":"dfmodel""#),
        line(3, "assistant", r#","model":"<synthetic>""#),
    ]
    .join("\n")
        + "\n";
    let delta = read(SessionMemberRelation::Root, &text);
    let assistant: Vec<&ParsedSessionMessage> = delta
        .messages
        .iter()
        .filter(|m| m.role == SessionMessageRole::Assistant)
        .collect();
    assert_eq!(assistant.len(), 2);
    assert_eq!(assistant[0].model.as_deref(), Some("dfmodel"));
    assert_eq!(assistant[0].provider, None, "no provider in the source");
    assert_eq!(
        assistant[1].model, None,
        "a synthesized error notice is not a generation"
    );
}

#[test]
fn a_root_gets_the_title_that_the_app_shows() {
    let row = |id: &str, title: &str, source: &str| TitleRow {
        session_id: id.to_string(),
        title: title.to_string(),
        extra_json: Some(format!(r#"{{"titleSource":"{source}"}}"#)),
    };
    let titles = SessionTitles {
        rows: vec![
            row("s-other", "别的", "ai"),
            row("s-main", "修改任务编辑功能", "ai"),
        ],
    };
    assert_eq!(
        titles.title_for("s-main").as_deref(),
        Some("修改任务编辑功能")
    );
    assert_eq!(titles.title_for("s-none"), None);

    let root = file(&["projects", "p"], "s-main.jsonl", &main_lines());
    let foreign = file(&["projects", "p"], "x.jsonl", r#"{"kind":"?"}"#);
    let files = vec![foreign, root];
    let found = QoderAdapter::discover_members_in(&files, &titles, &Vec::new());
    assert_eq!(found.len(), 1);
    assert_eq!(found[0].source_member_id, "s-main");
    assert_eq!(found[0].native_title.as_deref(), Some("修改任务编辑功能"));

    let unchanged = vec!["/projects/p/s-main.jsonl".to_string()];
    assert!(QoderAdapter::discover_members_in(&files, &titles, &unchanged).is_empty());

    let provisional = SessionTitles {
        rows: vec![row("s-main", "把详情页的消息改一下", "provisional")],
    };
    let found = QoderAdapter::discover_members_in(&files, &provisional, &Vec::new());
    assert_eq!(found[0].native_title, None);
}
