//! Antigravity.
use noending::adapters::antigravity::{
    conversation_files, conversations_dir, pb_fields, pb_str, pb_sub, pb_varint, AntigravityAdapter,
    Conversation, PbVal, StepRow, Summary,
};
use noending::adapters::reader::SourceFile;
use noending::adapters::DiscoveredMemberKind;
use noending::domain::{
    SessionMemberCursor, SessionMemberRelation, SessionMessageRole, StatsUpdate,
};
use noending::paths::{FoundDir, FoundFile};

fn varint(mut v: u64) -> Vec<u8> {
    let mut out = Vec::new();
    loop {
        let b = (v & 0x7f) as u8;
        v >>= 7;
        if v == 0 {
            out.push(b);
            break;
        }
        out.push(b | 0x80);
    }
    out
}

fn tag(f: u32, wt: u32) -> Vec<u8> {
    varint(((f << 3) | wt) as u64)
}

fn number(f: u32, v: u64) -> Vec<u8> {
    [tag(f, 0), varint(v)].concat()
}

fn msg(f: u32, inner: &[u8]) -> Vec<u8> {
    [tag(f, 2), varint(inner.len() as u64), inner.to_vec()].concat()
}

fn text(f: u32, s: &str) -> Vec<u8> {
    msg(f, s.as_bytes())
}

fn timestamp(secs: u64) -> Vec<u8> {
    msg(5, &msg(1, &[number(1, secs), number(2, 500_000_000)].concat()))
}

fn metadata() -> Option<Vec<u8>> {
    Some(
        [
            msg(1, &text(1, "file:///repo")),
            msg(2, &[number(1, 1_789_480_089), number(2, 0)].concat()),
        ]
        .concat(),
    )
}

fn conversation(name: &str) -> FoundFile {
    FoundFile {
        path: format!("/root/conversations/{name}"),
        name: name.to_string(),
        ancestors: vec![FoundDir {
            path: "/root/conversations".to_string(),
            name: "conversations".to_string(),
        }],
        modified: None,
        head: Vec::new(),
        data: Vec::new(),
    }
}

fn step(idx: i64, step_type: i64, payload: Vec<u8>) -> StepRow {
    StepRow {
        idx,
        step_type,
        payload,
    }
}

#[test]
fn ingests_the_conversation_and_counts_the_machine_traffic() {
    let user_turn = [timestamp(1_789_480_258), msg(19, &text(2, "把日报整理一下"))].concat();
    let agent_turn = [
        timestamp(1_789_480_261),
        msg(20, &text(3, "日报已整理好。")),
        msg(20, &msg(7, &text(2, "list_dir"))),
    ]
    .concat();
    let api_error = text(
        2,
        "RESOURCE_EXHAUSTED (code 429): Individual quota reached.",
    );
    let rows = vec![
        step(0, 14, user_turn),
        step(1, 15, agent_turn),
        step(2, 132, Vec::new()),
        step(3, 17, api_error),
    ];
    let source = SourceFile {
        identity: "1:1".to_string(),
        mtime: None,
        data: b"SQLite format 3".to_vec(),
    };
    let delta = AntigravityAdapter::read_member_delta(
        SessionMemberRelation::Root,
        &rows,
        &source,
        &SessionMemberCursor::start(),
    );
    let roles: Vec<(SessionMessageRole, &str)> = delta
        .messages
        .iter()
        .map(|m| (m.role, m.content.as_str()))
        .collect();
    assert_eq!(
        roles,
        vec![
            (SessionMessageRole::User, "把日报整理一下"),
            (SessionMessageRole::Assistant, "日报已整理好。"),
        ]
    );
    assert_eq!(
        delta.messages[0].source_message_id.as_deref(),
        Some("step:0"),
        "the step idx is the native id"
    );
    assert!(delta.messages[0].ts.is_some());
    match delta.stats {
        Some(StatsUpdate::Snapshot(s)) => {
            assert_eq!(s.tool_call_count, Some(2), "15.7 + 132");
            assert_eq!(s.tool_error_count, Some(1), "the 429 step");
        }
        other => panic!("expected snapshot, got {other:?}"),
    }
}

#[test]
fn discovery_claims_conversations_and_maps_parents_to_children() {
    let root_summary = Some(Summary {
        title: "工程项目介绍".to_string(),
        preview: "工程项目介绍".to_string(),
        parent_conversation_id: None,
        workspace_uris: "[\"file:///repo\"]".to_string(),
    });
    let child_summary = Some(Summary {
        title: String::new(),
        preview: String::new(),
        parent_conversation_id: Some("11111111-2222-4333-8444-555555555555".to_string()),
        workspace_uris: "[]".to_string(),
    });
    let child = AntigravityAdapter::parse_member(
        &conversation("aaaaaaaa-bbbb-4ccc-8ddd-eeeeeeeeeeee.db"),
        &metadata(),
        &child_summary,
    )
    .unwrap();
    assert_eq!(child.source_member_id, "aaaaaaaa-bbbb-4ccc-8ddd-eeeeeeeeeeee");
    assert!(matches!(child.kind, DiscoveredMemberKind::Child));
    assert_eq!(
        child.parent_source_member_id.as_deref(),
        Some("11111111-2222-4333-8444-555555555555")
    );
    let root_m = AntigravityAdapter::parse_member(
        &conversation("11111111-2222-4333-8444-555555555555.db"),
        &metadata(),
        &root_summary,
    )
    .unwrap();
    assert!(matches!(root_m.kind, DiscoveredMemberKind::Root));
    assert_eq!(root_m.native_title.as_deref(), Some("工程项目介绍"));
    assert_eq!(root_m.cwd.as_deref(), Some("/repo"));
    assert!(root_m.started_at.is_some());
}

#[test]
fn non_conversation_db_files_are_not_claimed() {
    assert!(
        AntigravityAdapter::parse_member(&conversation("not-a-conversation.db"), &None, &None)
            .is_none(),
        "the id must look like a conversation id"
    );
}

#[test]
fn fields_are_read_off_the_wire() {
    let buf = [number(1, 300), text(2, "a"), msg(3, &number(1, 7))].concat();
    assert_eq!(pb_varint(&buf, 1), Some(300));
    assert_eq!(pb_str(&buf, 2).as_deref(), Some("a"));
    assert_eq!(pb_varint(pb_sub(&buf, 3).unwrap(), 1), Some(7));
    assert_eq!(pb_varint(&buf, 9), None);
    // A length beyond the end of the buffer ends the reading.
    assert!(pb_sub(&[0x1a, 0x7f, 0x00], 3).is_none());
}

#[test]
fn conversations_are_looked_for_in_one_directory() {
    let root = FoundDir {
        path: "/h/.gemini/antigravity".to_string(),
        name: "antigravity".to_string(),
    };
    let below = "/h/.gemini/antigravity/conversations".to_string();
    let none: Vec<String> = Vec::new();
    assert_eq!(
        conversations_dir(&root, &None, &none, &vec![below.clone()]),
        Some(below.clone())
    );
    assert_eq!(conversations_dir(&root, &None, &none, &none), None);

    let db = FoundDir {
        path: format!("{below}/abc.db"),
        name: "abc.db".to_string(),
    };
    assert_eq!(
        conversations_dir(&db, &Some(below.clone()), &vec![db.path.clone()], &none),
        Some(below)
    );

    let names: Vec<String> = ["b.db", "a.db", "a.db-wal", "notes"]
        .iter()
        .map(|n| n.to_string())
        .collect();
    assert_eq!(conversation_files(&names), vec!["a.db", "b.db"]);
}

#[test]
fn a_conversation_that_did_not_change_is_passed_over() {
    let of = |name: &str| Conversation {
        file: conversation(name),
        metadata: metadata(),
        summary: None,
    };
    let all = vec![of("aaaa-01.db"), of("settings.db"), of("bbbb-02.db")];
    let found = AntigravityAdapter::discover_members_in(&all, &Vec::new());
    let ids: Vec<&str> = found.iter().map(|m| m.source_member_id.as_str()).collect();
    assert_eq!(ids, vec!["aaaa-01", "bbbb-02"]);
    let unchanged = vec!["/root/conversations/aaaa-01.db".to_string()];
    let rest = AntigravityAdapter::discover_members_in(&all, &unchanged);
    assert_eq!(rest.len(), 1);
    assert_eq!(rest[0].source_member_id, "bbbb-02");
}

#[test]
fn a_child_has_no_title_of_its_own() {
    let summary = Some(Summary {
        title: "子任务".to_string(),
        preview: "子任务".to_string(),
        parent_conversation_id: Some("11111111".to_string()),
        workspace_uris: "[]".to_string(),
    });
    let child =
        AntigravityAdapter::parse_member(&conversation("aaaa.db"), &metadata(), &summary).unwrap();
    assert!(matches!(child.kind, DiscoveredMemberKind::Child));
    assert_eq!(child.parent_source_member_id.as_deref(), Some("11111111"));
    assert_eq!(child.native_title, None);
    assert_eq!(child.first_user_text, None);
    assert_eq!(child.first_agent_text, None);
}

#[test]
fn whole_fields_are_read_before_what_follows_them() {
    let shown = |buf: &[u8]| -> Vec<(u32, String)> {
        pb_fields(buf)
            .into_iter()
            .map(|(n, v)| match v {
                PbVal::Varint(x) => (n, x.to_string()),
                PbVal::Bytes(b) => (n, format!("{b:?}")),
            })
            .collect()
    };
    let a = [number(1, 300), tag(9, 5), vec![1, 2, 3, 4], text(2, "ab")].concat();
    for b in [text(3, "c"), vec![0x0a, 0x7f], Vec::new()] {
        let both = [a.clone(), b.clone()].concat();
        assert_eq!(shown(&both), [shown(&a), shown(&b)].concat());
    }
    assert_eq!(
        shown(&a),
        vec![(1, "300".to_string()), (2, "[97, 98]".to_string())]
    );
}
