//! What the formats make of documents that are already read.
use noending::adapters::antigravity::{AntigravityAdapter, Summary};
use noending::adapters::autoclaw::AutoClawAdapter;
use noending::adapters::claude::ClaudeAdapter;
use noending::adapters::codex::{CodexAdapter, ThreadNames};
use noending::adapters::dsh::DshAdapter;
use noending::adapters::gemini::{metadata_among, metadata_field, replay_all, GeminiAdapter};
use noending::adapters::pi::PiAdapter;
use noending::adapters::qoder::{sourced_title, QoderAdapter};
use noending::adapters::workbuddy::WorkBuddyAdapter;
use noending::adapters::DiscoveredMemberKind;
use noending::agent_runtime::discovery::codex::models_of;
use noending::json::Json;
use noending::paths::{FoundDir, FoundFile};

fn text(s: &str) -> Json {
    Json::Text(s.to_string())
}

fn object(fields: Vec<(&str, Json)>) -> Json {
    Json::Object(fields.into_iter().map(|(k, v)| (k.to_string(), v)).collect())
}

fn numbered(docs: Vec<Json>) -> Vec<(usize, Json)> {
    docs.into_iter().enumerate().collect()
}

fn file(name: &str) -> FoundFile {
    FoundFile {
        path: format!("/root/{name}"),
        name: name.to_string(),
        ancestors: Vec::new(),
        modified: None,
        head: Vec::new(),
        data: Vec::new(),
    }
}

/// A line with a message of its own, as several formats write it.
fn said(kind: &str, content: &str) -> Json {
    object(vec![
        ("type", text(kind)),
        ("sessionId", text("s-1")),
        ("cwd", text("/repo")),
        ("timestamp", text("2026-09-14T15:20:39Z")),
        (
            "message",
            object(vec![("role", text(kind)), ("content", text(content))]),
        ),
    ])
}

#[test]
fn a_transcript_of_documents_is_a_member() {
    let docs = numbered(vec![said("user", "hello"), said("assistant", "hi")]);
    let m = ClaudeAdapter::member_from(&file("x.jsonl"), &docs);
    assert_eq!(m.source_member_id, "s-1");
    assert_eq!(m.cwd.as_deref(), Some("/repo"));
    assert_eq!(m.first_user_text.as_deref(), Some("hello"));
    assert_eq!(m.first_agent_text.as_deref(), Some("hi"));
    let m = ClaudeAdapter::member_from(&file("x.jsonl"), &Vec::new());
    assert_eq!(m.source_member_id, "x");
    assert_eq!(m.first_user_text, None);

    let m = QoderAdapter::root_from(&file("x.jsonl"), &docs);
    assert_eq!(m.source_member_id, "s-1");
    assert_eq!(m.first_user_text.as_deref(), Some("hello"));
    assert_eq!(QoderAdapter::session_id_in(&docs).as_deref(), Some("s-1"));
    assert_eq!(QoderAdapter::session_id_in(&Vec::new()), None);
    assert_eq!(
        QoderAdapter::transcript_session_id(b"{}\n{\"sessionId\":\"s-2\"}\n").as_deref(),
        Some("s-2")
    );
}

#[test]
fn a_subagent_is_a_child_of_the_session_its_documents_name() {
    let mut f = file("agent-7.jsonl");
    for name in ["subagents", "s-1"] {
        f.ancestors.push(FoundDir {
            path: format!("/root/{name}"),
            name: name.to_string(),
        });
    }
    let docs = numbered(vec![said("user", "hello")]);
    let m = QoderAdapter::child_from(&f, &docs).unwrap();
    assert_eq!(m.kind, DiscoveredMemberKind::Child);
    assert_eq!(m.source_member_id, "s-1:subagent:agent-7");
    assert_eq!(m.parent_source_member_id.as_deref(), Some("s-1"));
    assert!(QoderAdapter::child_from(&f, &Vec::new()).is_none());
}

#[test]
fn only_a_settled_title_of_a_row_is_shown() {
    let source = Some("ai".to_string());
    assert_eq!(sourced_title("Fix it", &source).as_deref(), Some("Fix it"));
    assert_eq!(sourced_title("Fix it", &Some("provisional".to_string())), None);
    assert_eq!(sourced_title("Fix it", &None), None);
    assert_eq!(sourced_title("  ", &source), None);
}

#[test]
fn a_session_header_names_the_session() {
    let header = object(vec![
        ("type", text("session")),
        ("version", Json::Number(Some(3))),
        ("id", text("p-1")),
        ("cwd", text("/repo")),
        ("timestamp", text("2026-09-14T15:20:39Z")),
    ]);
    let turn = object(vec![
        ("type", text("message")),
        (
            "message",
            object(vec![("role", text("user")), ("content", text("hello"))]),
        ),
    ]);
    let docs = numbered(vec![header, turn]);
    let m = PiAdapter::member_from(&file("1_x.jsonl"), &docs).unwrap();
    assert_eq!(m.source_member_id, "p-1");
    assert_eq!(m.started_at.as_deref(), Some("2026-09-14T15:20:39Z"));
    let m = PiAdapter::member_from(&file("1_x.jsonl"), &Vec::new()).unwrap();
    assert_eq!(m.source_member_id, "x");
    assert!(PiAdapter::member_from(&file("1_.jsonl"), &Vec::new()).is_none());

    let m = AutoClawAdapter::member_from(&file("a.jsonl"), "main", &docs).unwrap();
    assert_eq!(m.source_member_id, "main:p-1");
    assert_eq!(m.cwd.as_deref(), Some("/repo"));
    // A header that does not stand in the first line refuses the transcript.
    let late: Vec<(usize, Json)> = docs.into_iter().map(|(i, v)| (i + 1, v)).collect();
    assert!(AutoClawAdapter::member_from(&file("a.jsonl"), "main", &late).is_none());
}

#[test]
fn the_last_title_among_documents_is_the_title() {
    let titled = |t: &str| object(vec![("type", text("ai-title")), ("aiTitle", text(t))]);
    let docs = numbered(vec![
        object(vec![
            ("type", text("message")),
            ("role", text("user")),
            ("sessionId", text("w-1")),
            ("timestamp", Json::Number(Some(0))),
            (
                "content",
                Json::List(vec![object(vec![
                    ("type", text("input_text")),
                    ("text", text("hello")),
                ])]),
            ),
        ]),
        titled("First"),
        titled("Second"),
        titled(" "),
    ]);
    let s = WorkBuddyAdapter::session_from(&file("x.jsonl"), &docs);
    assert_eq!(s.agent_session_id, "w-1");
    assert_eq!(s.native_title.as_deref(), Some("Second"));
    assert_eq!(s.first_user_text.as_deref(), Some("hello"));
}

#[test]
fn a_rollout_without_an_identity_is_refused() {
    let meta = object(vec![
        ("type", text("session_meta")),
        (
            "payload",
            object(vec![("id", text("c-1")), ("cwd", text("/repo"))]),
        ),
    ]);
    let m = CodexAdapter::member_from(&file("x.jsonl"), &numbered(vec![meta])).ok().unwrap();
    assert_eq!(m.source_member_id, "c-1");
    assert_eq!(m.cwd.as_deref(), Some("/repo"));
    let e = CodexAdapter::member_from(&file("x.jsonl"), &Vec::new()).err().unwrap();
    assert_eq!(e.message(), "无法解析 Codex session id: /root/x.jsonl");
}

#[test]
fn the_last_name_of_a_thread_counts() {
    let named = |id: &str, name: &str| {
        object(vec![("id", text(id)), ("thread_name", text(name))])
    };
    let mut names = ThreadNames::load(&Vec::new());
    names.add_names(&numbered(vec![
        named("t", "Old"),
        named("t", "New"),
        named("t", " "),
        named("u", "Other"),
    ]));
    assert_eq!(names.title_for("t", &None).as_deref(), Some("New"));
    assert_eq!(names.title_for("x", &None), None);
}

#[test]
fn records_make_a_transcript_only_behind_a_header() {
    let header = |parent: Option<&str>| {
        let mut fields = vec![
            ("type", text("session")),
            ("createdAt", Json::Number(Some(0))),
            ("id", text("d-1")),
        ];
        if let Some(p) = parent {
            fields.push(("parentSession", text(p)));
        }
        object(fields)
    };
    let title = || {
        object(vec![
            ("type", text("session/title")),
            ("data", object(vec![("title", text("Fix it"))])),
        ])
    };
    let f = file("session.v2.jsonl.zstd");
    let m = DshAdapter::member_from(&f, &vec![header(None), title()]).unwrap();
    assert_eq!(m.kind, DiscoveredMemberKind::Root);
    assert_eq!(m.source_member_id, "d-1");
    assert_eq!(m.native_title.as_deref(), Some("Fix it"));
    let m = DshAdapter::member_from(&f, &vec![header(Some("d-0")), title()]).unwrap();
    assert_eq!(m.kind, DiscoveredMemberKind::Child);
    assert_eq!(m.parent_source_member_id.as_deref(), Some("d-0"));
    assert_eq!(m.native_title, None);
    assert!(DshAdapter::member_from(&f, &vec![title(), header(None)]).is_none());
    assert!(DshAdapter::member_from(&f, &Vec::new()).is_none());

    let call = || object(vec![("type", text("tool/call"))]);
    let (messages, counts) = DshAdapter::read_all(&vec![header(None), call(), call()], true);
    assert!(messages.is_empty());
    assert_eq!(counts.tool_calls, 2);
}

#[test]
fn the_list_of_workspaces_names_the_directory() {
    let f = file("0a1b2c3d-0000-4000-8000-000000000000.db");
    let summary = Some(Summary {
        title: "Fix it".to_string(),
        preview: String::new(),
        parent_conversation_id: None,
        workspace_uris: String::new(),
    });
    let cwd = |list: Option<Json>| {
        AntigravityAdapter::member_from(&f, &None, &summary, &list).unwrap().cwd
    };
    let list = Json::List(vec![text("file:///repo"), text("file:///other")]);
    assert_eq!(cwd(Some(list)).as_deref(), Some("/repo"));
    assert_eq!(cwd(Some(Json::List(Vec::new()))), None);
    assert_eq!(cwd(None), None);
    assert!(AntigravityAdapter::member_from(&file("notes.db"), &None, &summary, &None).is_none());
}

#[test]
fn operations_replay_to_the_conversation_they_end_on() {
    let turn = |id: &str, content: &str| {
        object(vec![
            ("id", text(id)),
            ("type", text("user")),
            ("content", text(content)),
        ])
    };
    let rewind = object(vec![("$rewindTo", text("b"))]);
    let operations = vec![turn("a", "one"), turn("b", "two"), turn("a", "three"), rewind];
    let left = replay_all(&operations);
    assert_eq!(left.len(), 1);
    assert_eq!(left[0].text_at("content"), Some("three"));

    let records = vec![
        object(vec![("startTime", text("t1"))]),
        object(vec![("$set", object(vec![("startTime", text("t2"))]))]),
        object(vec![("id", text("m")), ("startTime", text("t3"))]),
    ];
    assert_eq!(metadata_among(&records, "startTime").as_deref(), Some("t2"));
    assert_eq!(
        metadata_field("{\"startTime\":\"t1\"}\nnothing\n", "startTime").as_deref(),
        Some("t1")
    );

    let marker = Some(" /repo\n".to_string());
    let s = GeminiAdapter::session_from(&file("session-1.jsonl"), &operations, &records, &marker);
    assert_eq!(s.agent_session_id, "session-1");
    assert_eq!(s.cwd.as_deref(), Some("/repo"));
    assert_eq!(s.started_at.as_deref(), Some("t2"));
    assert_eq!(s.first_user_text.as_deref(), Some("three"));
}

#[test]
fn a_document_offers_the_models_it_lists() {
    let entry = |slug: &str, visibility: &str| {
        object(vec![
            ("slug", text(slug)),
            ("visibility", text(visibility)),
            (
                "supported_reasoning_levels",
                Json::List(vec![object(vec![("effort", text("low"))])]),
            ),
        ])
    };
    let root = object(vec![(
        "models",
        Json::List(vec![entry("a", "list"), entry("b", "hide")]),
    )]);
    let models = models_of(&root).ok().unwrap();
    assert_eq!(models.len(), 1);
    assert_eq!(models[0].id, "a");
    assert_eq!(models[0].supported_efforts, vec!["low".to_string()]);
    assert_eq!(models_of(&object(Vec::new())).err().unwrap(), "缺少 models 数组");
}
