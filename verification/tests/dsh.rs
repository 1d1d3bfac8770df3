//! The DeepSeek harness.
use noending::adapters::dsh::{newest_transcript, session_roots, DshAdapter};
use noending::adapters::reader::{MemberReadDelta, SourceFile};
use noending::adapters::{DiscoveredMember, DiscoveredMemberKind};
use noending::domain::{
    Agent, SessionMemberCursor, SessionMemberRelation, SessionMessageRole, StatsUpdate,
};
use noending::paths::{FoundDir, FoundFile};

const V2: &str = "session.v2.jsonl.zstd";

fn frame(body: &str) -> Vec<u8> {
    zstd::encode_all(body.as_bytes(), 3).unwrap()
}

/// One frame per write batch; every record is newline-terminated.
fn frames(records: &[&str]) -> Vec<u8> {
    let mut bytes = Vec::new();
    for r in records {
        bytes.extend(frame(&format!("{r}\n")));
    }
    bytes
}

fn transcript(id: &str, name: &str, data: Vec<u8>) -> FoundFile {
    FoundFile {
        path: format!("/root/proj/{id}/{name}"),
        name: name.to_string(),
        ancestors: vec![
            FoundDir {
                path: format!("/root/proj/{id}"),
                name: id.to_string(),
            },
            FoundDir {
                path: "/root/proj".to_string(),
                name: "proj".to_string(),
            },
        ],
        modified: None,
        head: Vec::new(),
        data,
    }
}

fn found(id: &str, records: &[&str]) -> Option<DiscoveredMember> {
    DshAdapter::parse_member(&transcript(id, V2, frames(records)))
}

fn read(relation: SessionMemberRelation, data: Vec<u8>) -> MemberReadDelta {
    let source = SourceFile {
        identity: "1:1".to_string(),
        mtime: None,
        data,
    };
    DshAdapter::read_member_delta(relation, &source, &SessionMemberCursor::start())
}

fn header(id: &str, extra: &str) -> String {
    format!(
        r#"{{"type":"session","version":2,"id":"{id}","createdAt":1788969915099,"cwd":"/repo","isSeeded":false,"delegationDepth":0,"agentPreset":"standard"{extra}}}"#
    )
}

fn user(seq: i64, text: &str) -> String {
    format!(
        r#"{{"type":"user/message","seq":{seq},"time":1788969927205,"data":{{"content":[{{"type":"text","text":"{text}"}}],"role":"user"}}}}"#
    )
}

fn assistant(seq: i64, text: &str) -> String {
    format!(
        r#"{{"type":"assistant/message","seq":{seq},"time":1788969948545,"data":{{"turn":1,"step":1,"message":{{"role":"assistant","content":[{{"type":"reasoning","text":"thinking"}},{{"type":"text","text":"{text}"}}]}}}}}}"#
    )
}

const RUNTIME_CTX: &str = r#"{"type":"user/message","seq":1,"time":1788969927205,"data":{"content":[{"type":"text","text":"Current runtime context. This snapshot supersedes earlier runtime-context snapshots."}],"role":"user"}}"#;
const REMINDER: &str = r#"{"type":"user/message","seq":2,"time":1788969927206,"data":{"content":[{"type":"text","text":"<system-reminder>\nworkspace instructions\n</system-reminder>"}],"role":"user"}}"#;

#[test]
fn discovery_reads_header_facts_and_skips_injected_context() {
    let id = "session-abc";
    let m = found(
        id,
        &[
            &header(id, ""),
            RUNTIME_CTX,
            &user(3, "请审计这个仓库"),
            &assistant(4, "好的。"),
        ],
    )
    .unwrap();
    assert_eq!(m.agent, Agent::Dsh);
    assert_eq!(m.source_member_id, id);
    assert!(matches!(m.kind, DiscoveredMemberKind::Root));
    assert_eq!(m.cwd.as_deref(), Some("/repo"));
    // The runtime snapshot is a user/message too, but not the user's words.
    assert_eq!(m.first_user_text.as_deref(), Some("请审计这个仓库"));
    assert_eq!(
        m.started_at.as_deref(),
        Some("2026-09-09T16:05:15.099+00:00")
    );
    assert!(m.parent_source_member_id.is_none());
}

#[test]
fn a_parent_session_makes_the_transcript_a_child_member() {
    let child = "06a1b2c3-0000-4000-8000-000000000001";
    let parent = "session-parent";
    let m = found(
        child,
        &[
            &header(
                child,
                r#","parentSession":"session-parent","origin":"subagent","delegationDepth":1"#,
            ),
            &user(1, "delegated task"),
            &assistant(2, "done"),
        ],
    )
    .unwrap();
    assert_eq!(m.source_member_id, child);
    assert!(matches!(m.kind, DiscoveredMemberKind::Child));
    assert_eq!(m.parent_source_member_id.as_deref(), Some(parent));
    assert_eq!(m.root_hint.as_deref(), Some(parent));
    assert_eq!(
        m.native_title, None,
        "a child never names a Logical Session"
    );
    assert_eq!(
        m.metadata.text_at("origin"),
        Some("subagent"),
        "the header facts ride along as execution metadata"
    );
}

#[test]
fn the_newest_published_generation_wins() {
    let id = "12f75210-3fd8-4500-ab7d-014646eb1462";
    // An upgraded session keeps its older files beside the new one.
    let names = vec!["session.jsonl.zstd".to_string(), V2.to_string()];
    let newest = newest_transcript(&names).unwrap();
    assert_eq!(names[newest], V2, "the newest generation is the source");
    let m = found(
        id,
        &[
            &header(id, ""),
            &user(1, "second generation prompt"),
            &assistant(2, "second generation reply"),
        ],
    )
    .unwrap();
    assert_eq!(
        m.first_user_text.as_deref(),
        Some("second generation prompt")
    );
    assert!(m.source_path.ends_with("session.v2.jsonl.zstd"));
}

#[test]
fn the_root_read_keeps_the_conversation_and_drops_machine_traffic() {
    let id = "session-ingest";
    let delta = read(
        SessionMemberRelation::Root,
        frames(&[
            &header(id, ""),
            r#"{"type":"permission/preset","seq":0,"time":1,"data":{"preset":"workspace-write"}}"#,
            RUNTIME_CTX,
            REMINDER,
            &user(3, "帮我看看这个 bug"),
            r#"{"type":"tool/call","seq":4,"time":1788969930000,"data":{"name":"read"}}"#,
            &assistant(5, "看完了。"),
            r#"{"type":"session/title","seq":6,"time":2,"data":{"title":"看 bug"}}"#,
            r#"{"type":"compaction/prune","seq":7,"time":3,"data":{}}"#,
        ]),
    );
    let texts: Vec<(SessionMessageRole, &str)> = delta
        .messages
        .iter()
        .map(|m| (m.role, m.content.as_str()))
        .collect();
    assert_eq!(
        texts,
        vec![
            (SessionMessageRole::User, "帮我看看这个 bug"),
            (SessionMessageRole::Assistant, "看完了。"),
        ],
    );
    // The writer's own seq is the native id, so dedup is exact.
    assert_eq!(delta.messages[0].source_message_id.as_deref(), Some("3"));
    assert_eq!(
        delta.messages[0].ts.as_deref(),
        Some("2026-09-09T16:05:27.205+00:00")
    );
    match delta.stats {
        Some(StatsUpdate::Snapshot(s)) => {
            assert_eq!(s.tool_call_count, Some(1));
            assert_eq!(s.compaction_count, Some(1));
        }
        other => panic!("expected snapshot, got {other:?}"),
    }
}

#[test]
fn a_message_from_another_session_is_side_activity() {
    let id = "session-agent-msg";
    let delta = read(
        SessionMemberRelation::Root,
        frames(&[
            &header(id, ""),
            &user(3, "怎么拆这个任务"),
            r#"{"type":"user/message","seq":8,"time":4,"data":{"content":[{"type":"text","text":"Background subagent reported:"},{"type":"text","text":"只读检查完成。"}],"role":"user","source":{"kind":"subagent-report","form":"relay","senderSessionId":"a73db4b1-ade0-4635-ac0b-a8666803f733"}}}"#,
            r#"{"type":"user/message","seq":9,"time":5,"data":{"content":[{"type":"text","text":"我的补充结论。"}],"role":"user","source":{"kind":"agent-message","form":"relay","senderSessionId":"session-peer"}}}"#,
            // A plugin notice is also a `user/message`, and it is NOT an
            // agent message: no sender.
            r#"{"type":"user/message","seq":10,"time":6,"data":{"content":[{"type":"text","text":"The approval policy changed from \"ask\" to \"never\"."}],"role":"user","source":{"kind":"plugin","plugin":"user-approval"}}}"#,
        ]),
    );
    let roles: Vec<SessionMessageRole> = delta.messages.iter().map(|m| m.role).collect();
    assert_eq!(
        roles,
        vec![SessionMessageRole::User, SessionMessageRole::User],
        "the two relayed messages are out of the conversation"
    );
    assert_eq!(delta.messages[0].content, "怎么拆这个任务");
    assert_eq!(
        delta.messages[1].content,
        "The approval policy changed from \"ask\" to \"never\"."
    );
    match delta.stats {
        Some(StatsUpdate::Snapshot(s)) => {
            assert_eq!(s.side_activity_count, Some(2));
        }
        other => panic!("expected snapshot, got {other:?}"),
    }
}

#[test]
fn the_last_session_title_wins() {
    let m = found(
        "sess-t",
        &[
            r#"{"type":"session","version":2,"id":"sess-t","createdAt":1788969915099,"cwd":"/tmp/proj"}"#,
            r#"{"type":"user/message","seq":9,"time":1788969927205,"data":{"content":[{"type":"text","text":"demo"}],"role":"user"}}"#,
            r#"{"type":"session/title","seq":12,"time":1788969928000,"data":{"title":"demo","messageSeqs":[9],"source":{"kind":"fallback"}}}"#,
            r#"{"type":"session/title","seq":13,"time":1788969930000,"data":{"title":"了解 feedback 指令的用途","messageSeqs":[9],"source":{"kind":"provider"}}}"#,
        ],
    )
    .unwrap();
    assert_eq!(
        m.native_title.as_deref(),
        Some("了解 feedback 指令的用途")
    );
    assert_eq!(m.first_user_text.as_deref(), Some("demo"));
}

#[test]
fn the_task_envelope_is_not_the_user_turn() {
    let m = found(
        "sess-e",
        &[
            r#"{"type":"session","version":2,"id":"sess-e","createdAt":1788969915099,"cwd":"/tmp/proj"}"#,
            r###"{"type":"user/message","seq":8,"time":1788969927000,"data":{"content":[{"type":"text","text":"## Task context\ntask title: 回收站中的任务及会话打开逻辑"}],"role":"user"}}"###,
        ],
    )
    .unwrap();
    assert_eq!(m.first_user_text, None, "not a human turn");
}

#[test]
fn a_fallback_title_is_not_a_native_title() {
    let m = found(
        "sess-f",
        &[
            r#"{"type":"session","version":2,"id":"sess-f","createdAt":1788969915099,"cwd":"/tmp/proj"}"#,
            r#"{"type":"user/message","seq":8,"time":1788969927000,"data":{"content":[{"type":"text","text":"看下这个"}],"role":"user"}}"#,
            r###"{"type":"session/title","seq":12,"time":1788969928000,"data":{"title":"## Task context task title:","messageSeqs":[8],"source":{"kind":"fallback"}}}"###,
        ],
    )
    .unwrap();
    assert_eq!(m.native_title, None, "the fallback is not a title");
    assert_eq!(m.first_user_text.as_deref(), Some("看下这个"));
}

#[test]
fn a_pi_header_inside_a_zstd_file_is_not_claimed() {
    let data = frame(r#"{"type":"session","version":3,"id":"p1","cwd":"/x"}"#);
    assert!(DshAdapter::parse_member(&transcript("p1", V2, data)).is_none());
}

#[test]
fn a_torn_final_frame_leaves_the_complete_prefix_intact() {
    let id = "session-torn";
    let mut data = frames(&[
        &header(id, ""),
        &user(3, "first prompt"),
        &assistant(4, "first reply"),
    ]);
    // Half of the next frame: the bytes on disk are not a frame.
    let partial = frame(&format!("{}\n", user(5, "half written")));
    data.extend_from_slice(&partial[..partial.len() / 2]);
    let delta = read(SessionMemberRelation::Root, data);
    let texts: Vec<&str> = delta.messages.iter().map(|m| m.content.as_str()).collect();
    assert_eq!(texts, vec!["first prompt", "first reply"], "{texts:?}");
}

#[test]
fn dsh_a_child_member_produces_observations_only() {
    let id = "session-child";
    let delta = read(
        SessionMemberRelation::Child,
        frames(&[
            &header(
                id,
                r#","parentSession":"session-parent","origin":"subagent","delegationDepth":1"#,
            ),
            &user(1, "delegated task"),
            &assistant(2, "done"),
        ]),
    );
    assert!(delta.messages.is_empty());
}

#[test]
fn assistant_source_kind_model_attributes_the_generation_identity() {
    let id = "session-prov";
    let with_model = r#"{"type":"assistant/message","seq":10,"time":1788969948545,"data":{"message":{"role":"assistant","content":[{"type":"text","text":"答一"}],"source":{"kind":"model","provider":"openai-codex","model":"gpt-5.6-luna"}}}}"#;
    let non_model = r#"{"type":"assistant/message","seq":11,"time":1788969948546,"data":{"message":{"role":"assistant","content":[{"type":"text","text":"答二"}],"source":{"kind":"plugin","provider":"x","model":"y"}}}}"#;
    let no_source = r#"{"type":"assistant/message","seq":12,"time":1788969948547,"data":{"message":{"role":"assistant","content":[{"type":"text","text":"答三"}]}}}"#;
    let delta = read(
        SessionMemberRelation::Root,
        frames(&[
            &header(id, ""),
            RUNTIME_CTX,
            REMINDER,
            &user(3, "问"),
            with_model,
            non_model,
            no_source,
        ]),
    );
    let assistant: Vec<(Option<&str>, Option<&str>)> = delta
        .messages
        .iter()
        .filter(|m| m.role == SessionMessageRole::Assistant)
        .map(|m| (m.provider.as_deref(), m.model.as_deref()))
        .collect();
    assert_eq!(
        assistant,
        vec![
            (Some("openai-codex"), Some("gpt-5.6-luna")),
            (None, None),
            (None, None),
        ]
    );
}

#[test]
fn a_directory_brings_its_newest_generation_alone() {
    let old = header("s1", "");
    let new = header("s1", r#","title":"x""#);
    let dirs = vec![
        vec![
            transcript("s1", "session.v1.jsonl.zstd", frames(&[&old])),
            transcript("s1", V2, frames(&[&new])),
            transcript("s1", "notes.txt", Vec::new()),
        ],
        vec![transcript("s2", V2, frames(&[&header("s2", "")]))],
        vec![transcript("s3", "notes.txt", Vec::new())],
    ];
    let found = DshAdapter::discover_members_in(&dirs, &Vec::new());
    let paths: Vec<&str> = found.iter().map(|m| m.source_path.as_str()).collect();
    assert_eq!(
        paths,
        vec![
            "/root/proj/s1/session.v2.jsonl.zstd",
            "/root/proj/s2/session.v2.jsonl.zstd",
        ]
    );
    assert!(found.iter().all(|m| m.agent == Agent::Dsh));

    let unchanged = vec!["/root/proj/s1/session.v2.jsonl.zstd".to_string()];
    let rest = DshAdapter::discover_members_in(&dirs, &unchanged);
    assert_eq!(rest.len(), 1, "the older generation does not step in");
    assert_eq!(rest[0].source_member_id, "s2");
}

#[test]
fn only_the_sessions_of_a_root_are_walked() {
    let dir = |path: &str, name: &str| FoundDir {
        path: path.to_string(),
        name: name.to_string(),
    };
    let roots = vec![
        dir("/h/.dsh", ".dsh"),
        dir("/h/sessions", "sessions"),
        dir("/bare", "bare"),
    ];
    let dirs = vec![
        "/h/.dsh/sessions".to_string(),
        "/h/sessions/sessions".to_string(),
    ];
    assert_eq!(
        session_roots(&roots, &dirs),
        vec!["/h/.dsh/sessions", "/h/sessions", "/bare"]
    );
}
