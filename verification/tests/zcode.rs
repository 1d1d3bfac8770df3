//! ZCode.
use noending::adapters::events::ReadDelta;
use noending::adapters::zcode::{
    conversation, db_path, MessageRow, PartRow, SessionRow, SessionStore, StoredMessage,
    StoredSession, ZCodeAdapter,
};
use noending::domain::{Agent, SessionMemberCursor, SourceCursorUpdate};

const PROMPT: &str = r#"{"role":"user","time":{"created":1788012788361},"semantics":{"origin":"real_user","kind":"user_prompt"},"contextSnapshot":{"envInfo":{"cwd":"/repo"}}}"#;

fn reminder(kind: &str) -> String {
    format!(
        r#"{{"role":"user","time":{{"created":1788538485030}},"semantics":{{"origin":"agent_runtime","kind":"{kind}"}}}}"#
    )
}

fn reply(settled: bool) -> String {
    let completed = if settled {
        r#","completed":1788012789059"#
    } else {
        ""
    };
    format!(
        r#"{{"role":"assistant","time":{{"created":1788012788390{completed}}},"semantics":{{"origin":"agent_runtime","kind":"assistant_response"}}}}"#
    )
}

fn text_part(text: &str) -> String {
    format!(
        r#"{{"type":"text","text":{}}}"#,
        serde_json::to_string(text).unwrap()
    )
}

fn message(id: &str, data: &str) -> MessageRow {
    MessageRow {
        id: id.to_string(),
        data: data.to_string(),
    }
}

fn part(id: &str, message: &str, sequence: i64, data: &str) -> PartRow {
    PartRow {
        message_id: message.to_string(),
        id: id.to_string(),
        data: data.to_string(),
        sequence: Some(sequence),
    }
}

fn session(id: &str, parent: Option<&str>, dir: &str, created: i64) -> SessionRow {
    SessionRow {
        id: id.to_string(),
        parent_id: parent.map(|p| p.to_string()),
        directory: Some(dir.to_string()),
        time_created: Some(created),
        time_updated: Some(created),
    }
}

fn read(messages: &Vec<StoredMessage>, cursor: &SessionMemberCursor) -> ReadDelta {
    ZCodeAdapter::read_delta(messages, "1:1", 4096, Some(7), cursor)
}

fn cursor_of(u: &SourceCursorUpdate) -> SessionMemberCursor {
    SessionMemberCursor {
        source_file_identity: u.file_identity.clone(),
        generation: u.generation,
        byte_offset: u.byte_offset,
        last_seen_size: u.last_seen_size,
        mtime: u.mtime,
        prefix_hash: u.prefix_hash.clone(),
        active_provider: None,
        active_model: None,
    }
}

#[test]
fn discovery_lists_live_sessions_with_cwd_and_parent_and_skips_archived() {
    let none: Vec<StoredMessage> = Vec::new();
    let rows = [
        session("main", None, "/repo", 200),
        session("root-child", Some("main"), "/repo/sub", 300),
    ];
    let found: Vec<_> = rows
        .iter()
        .map(|r| ZCodeAdapter::parse_session_row(r, "/db/zcode.db", &none))
        .collect();
    let ids: Vec<&str> = found.iter().map(|s| s.agent_session_id.as_str()).collect();
    assert_eq!(ids, vec!["main", "root-child"]);
    let child = &found[1];
    assert_eq!(child.parent_agent_session_id.as_deref(), Some("main"));
    assert_eq!(child.cwd.as_deref(), Some("/repo/sub"));
    assert_eq!(child.agent, Agent::ZCode);
    assert_eq!(child.path, "/db/zcode.db");
}

#[test]
fn the_title_is_the_first_real_prompt_not_a_reminder() {
    let messages = conversation(
        &vec![
            part(
                "p1",
                "m1",
                0,
                &text_part("The TodoWrite tool hasn't been used recently."),
            ),
            part("p2", "m2", 0, &text_part("真正的问题")),
        ],
        &vec![
            message("m1", &reminder("todo_reminder")),
            message("m2", PROMPT),
        ],
    );
    let found = ZCodeAdapter::parse_session_row(&session("s", None, "/repo", 100), "/db", &messages);
    assert_eq!(found.first_user_text.as_deref(), Some("真正的问题"));
}

#[test]
fn reminders_reasoning_and_tool_traffic_are_not_conversation() {
    let messages = conversation(
        &vec![
            part("p1", "m1", 0, &text_part("tool reminder")),
            part("p2", "m2", 0, &text_part("system reminder")),
            part("p3", "m3", 0, &text_part("人写的")),
            // Prose is only the `text` parts, and they are joined in `sequence`
            // order: reasoning and tool payloads are not the answer.
            part("p4", "m4", 0, &text_part("回答")),
            part("p5", "m4", 1, r#"{"type":"reasoning","text":"thinking"}"#),
            part("p6", "m4", 2, r#"{"type":"tool","tool":"bash"}"#),
            part("p7", "m4", 3, &text_part("尾部")),
        ],
        &vec![
            message("m1", &reminder("todo_reminder")),
            message("m2", &reminder("system_reminder")),
            message("m3", PROMPT),
            message("m4", &reply(true)),
        ],
    );
    let delta = read(&messages, &SessionMemberCursor::start());
    let got: Vec<(&str, &str, Option<&str>)> = delta
        .events
        .iter()
        .map(|e| {
            (
                e.kind.as_str(),
                e.text.as_deref().unwrap_or(""),
                e.source_event_id.as_deref(),
            )
        })
        .collect();
    assert_eq!(
        got,
        vec![
            ("user_message", "人写的", Some("m3")),
            ("assistant_message", "回答\n尾部", Some("m4")),
        ]
    );
    // The cursor stays in the file's own coordinates: nothing was seeked.
    assert_eq!(delta.source.unwrap().byte_offset, 4096);
}

#[test]
fn a_reply_is_read_only_once_it_settles() {
    let parts = vec![
        part("p1", "m1", 0, &text_part("提问")),
        part("p2", "m2", 0, &text_part("半句")),
    ];
    let open = conversation(
        &parts,
        &vec![message("m1", PROMPT), message("m2", &reply(false))],
    );
    let first = read(&open, &SessionMemberCursor::start());
    let ids = |d: &ReadDelta| -> Vec<String> {
        d.events
            .iter()
            .filter_map(|e| e.source_event_id.clone())
            .collect()
    };
    assert_eq!(
        ids(&first),
        vec!["m1"],
        "a half-written reply is not frozen"
    );

    // The replay is unconditional, so the prompt comes back too.
    let settled = conversation(
        &parts,
        &vec![message("m1", PROMPT), message("m2", &reply(true))],
    );
    let second = read(&settled, &cursor_of(first.source.as_ref().unwrap()));
    assert_eq!(ids(&second), vec!["m1", "m2"]);
    assert_eq!(
        second.source.unwrap().generation,
        first.source.unwrap().generation,
        "settling a reply is not a change of source shape"
    );
}

#[test]
fn compaction_is_a_boundary_not_a_message() {
    let messages = conversation(
        &vec![
            part("cmp1", "m1", 0, r#"{"type":"compaction"}"#),
            part("p1", "m1", 1, &text_part("这是摘要，不是用户说的话")),
        ],
        &vec![message("m1", &reminder("compact_summary"))],
    );
    let delta = read(&messages, &SessionMemberCursor::start());
    let got: Vec<(&str, Option<&str>)> = delta
        .events
        .iter()
        .map(|e| (e.kind.as_str(), e.source_event_id.as_deref()))
        .collect();
    assert_eq!(got, vec![("compact", Some("cmp1"))]);
}

#[test]
fn the_root_or_the_database_file_itself_is_accepted() {
    let root = "/home/u/.zcode";
    let db = "/home/u/.zcode/cli/db/db.sqlite".to_string();
    let files = vec![db.clone()];
    assert_eq!(db_path(root, &files), Some(db.clone()));
    assert_eq!(db_path(&db, &files), Some(db));
    assert_eq!(
        db_path("/home/u/.zcode/cli", &files),
        None,
        "not every dir is a store"
    );
}

fn store(path: &str, id: &str) -> SessionStore {
    SessionStore {
        path: path.to_string(),
        sessions: vec![StoredSession {
            row: session(id, None, "/repo", 200),
            messages: vec![message("m1", PROMPT)],
            parts: vec![part("p1", "m1", 0, &text_part("修复登录"))],
        }],
    }
}

#[test]
fn a_store_is_read_once_however_often_it_is_registered() {
    let stores = vec![store("/a", "s1"), store("/b", "s2"), store("/a", "s1")];
    let found = ZCodeAdapter::discover_sessions_in(&stores);
    let ids: Vec<(&str, &str)> = found
        .iter()
        .map(|s| (s.path.as_str(), s.agent_session_id.as_str()))
        .collect();
    assert_eq!(ids, vec![("/a", "s1"), ("/b", "s2")]);
    assert_eq!(found[0].first_user_text.as_deref(), Some("修复登录"));
    assert!(found.iter().all(|s| s.agent == Agent::ZCode));
}
