//! Gemini.
use noending::adapters::gemini::{
    chat_roots, conversation_events, replay, GeminiAdapter, Recording,
};
use noending::adapters::reader::SourceFile;
use noending::domain::{Agent, SessionMemberCursor};
use noending::paths::{FoundDir, FoundFile};

fn recording(dirs: &[&str], name: &str, text: &str) -> FoundFile {
    // `dirs` runs from the outermost directory to the one that holds the file.
    let mut ancestors = Vec::new();
    for k in (0..dirs.len()).rev() {
        ancestors.push(FoundDir {
            path: format!("/{}", dirs[..=k].join("/")),
            name: dirs[k].to_string(),
        });
    }
    FoundFile {
        path: format!("/{}/{}", dirs.join("/"), name),
        name: name.to_string(),
        ancestors,
        modified: None,
        head: text.lines().map(|l| l.to_string()).collect(),
        data: text.as_bytes().to_vec(),
    }
}

fn metadata(session_id: &str) -> String {
    format!(
        r#"{{"sessionId":"{session_id}","projectHash":"303dd790","startTime":"2026-09-14T15:20:39.089Z","lastUpdated":"2026-09-14T15:20:39.089Z","kind":"main"}}"#
    )
}

fn message(id: &str, kind: &str, text: &str) -> String {
    format!(
        r#"{{"id":"{id}","timestamp":"2026-09-14T15:20:39.089Z","type":"{kind}","content":[{{"text":"{text}"}}]}}"#
    )
}

fn checkpoint(messages: &[String]) -> String {
    format!(r#"{{"$set":{{"messages":[{}]}}}}"#, messages.join(","))
}

fn marker() -> Option<String> {
    Some("/repo/here".to_string())
}

#[test]
fn discovery_reads_the_workspace_marker_and_the_first_real_prompt() {
    let body = format!(
        "{}\n{}\n",
        metadata("a2a-server"),
        checkpoint(&[
            message(
                "m1",
                "user",
                "<session_context>This is the Gemini CLI.</session_context>"
            ),
            message("m2", "user", "帮我看下这个仓库"),
            message("m3", "gemini", "好的。"),
        ])
    );
    let file = recording(
        &["root", "tmp", "noending", "chats"],
        "session-2026-09-14T15-20-a2a-serv.jsonl",
        &body,
    );
    let s = GeminiAdapter::discover_session(&file, &body, &marker()).unwrap();
    assert_eq!(s.agent, Agent::Gemini);
    // Identity is the file, not the metadata: every A2A recording says
    // `sessionId: "a2a-server"`, so trusting it would merge them all.
    assert_eq!(s.agent_session_id, "session-2026-09-14T15-20-a2a-serv");
    // The workspace is a marker file beside `chats/`, not a guess.
    assert_eq!(s.cwd.as_deref(), Some("/repo/here"));
    assert_eq!(s.started_at.as_deref(), Some("2026-09-14T15:20:39.089Z"));
    assert_eq!(s.first_user_text.as_deref(), Some("帮我看下这个仓库"));
}

#[test]
fn the_log_is_replayed_to_the_conversation_it_ends_on() {
    let body = format!(
        "{}\n{}\n{}\n{}\n",
        metadata("a2a-server"),
        // message records arrive one per line in the normal writer…
        message("m1", "user", "第一句"),
        message("m2", "gemini", "回应一"),
        // …and a checkpoint replaces the whole conversation, then a rewind
        // trims it back.
        checkpoint(&[
            message("m1", "user", "第一句"),
            message("m2", "gemini", "回应一"),
            message("m3", "user", "第二句"),
        ]),
    );
    let events = conversation_events(&replay(&body));
    let texts: Vec<&str> = events
        .iter()
        .map(|e| e.text.as_deref().unwrap_or(""))
        .collect();
    assert_eq!(texts, vec!["第一句", "回应一", "第二句"]);
    assert_eq!(
        events[2].source_event_id.as_deref(),
        Some("m3"),
        "the message id is the native event id"
    );

    // A rewind removes the anchor and everything after it, i.e. it restores
    // the state just BEFORE that message.
    let rewound = format!("{}\n{}\n", body.trim_end(), r#"{"$rewindTo":"m3"}"#);
    let texts: Vec<String> = conversation_events(&replay(&rewound))
        .into_iter()
        .map(|e| e.text.unwrap_or_default())
        .collect();
    assert_eq!(texts, vec!["第一句", "回应一"], "m3 is gone from the state");
}

#[test]
fn only_conversation_is_ingested() {
    let body = format!(
        "{}\n{}\n",
        metadata("a2a-server"),
        checkpoint(&[
            message("i1", "info", "Using model gemini-3-pro"),
            message("w1", "warning", "Approval required"),
            message("e1", "error", "Tool failed"),
            message("m1", "user", "真正的提问"),
            message("m2", "gemini", "回答"),
        ])
    );
    let source = SourceFile {
        identity: "1:1".to_string(),
        mtime: None,
        data: body.into_bytes(),
    };
    let delta = GeminiAdapter::read_delta(&source, &SessionMemberCursor::start());
    let kinds: Vec<(&str, &str)> = delta
        .events
        .iter()
        .map(|e| (e.kind.as_str(), e.text.as_deref().unwrap_or("")))
        .collect();
    assert_eq!(
        kinds,
        vec![
            ("user_message", "真正的提问"),
            ("assistant_message", "回答")
        ],
        "got {kinds:?}"
    );
}

#[test]
fn two_recordings_of_the_placeholder_session_stay_distinct() {
    let body = format!(
        "{}\n{}\n",
        metadata("a2a-server"),
        checkpoint(&[message("m1", "user", "第一次")])
    );
    let dirs = ["root", "tmp", "p", "chats"];
    let a = recording(&dirs, "session-2026-09-14T15-19-a2a-serv.jsonl", &body);
    let b = recording(&dirs, "session-2026-09-14T15-20-a2a-serv.jsonl", &body);
    let found = vec![
        GeminiAdapter::discover_session(&a, &body, &marker()).unwrap(),
        GeminiAdapter::discover_session(&b, &body, &marker()).unwrap(),
    ];
    assert_ne!(found[0].agent_session_id, found[1].agent_session_id);
    assert!(found
        .iter()
        .all(|s| s.agent_session_id.starts_with("session-")));
}

#[test]
fn files_that_are_not_recordings_are_not_claimed() {
    let text = format!("{}\n", message("m1", "user", "hi"));
    // A `session-*.jsonl` that does not sit in a `chats/` directory.
    let stray = recording(&["root", "brain", "abc"], "session-transcript.jsonl", &text);
    // A file in `chats/` whose first record is not the CLI's metadata.
    let foreign = recording(
        &["root", "tmp", "p", "chats"],
        "session-not-gemini.jsonl",
        &text,
    );
    assert!(GeminiAdapter::discover_session(&stray, &text, &None).is_none());
    assert!(GeminiAdapter::discover_session(&foreign, &text, &None).is_none());
}

#[test]
fn recordings_are_found_under_tmp_and_only_where_they_changed() {
    let roots = vec!["/h/.gemini".to_string(), "/bare".to_string()];
    let dirs = vec!["/h/.gemini/tmp".to_string()];
    assert_eq!(chat_roots(&roots, &dirs), vec!["/h/.gemini/tmp", "/bare"]);

    let body = format!("{}\n", metadata("a2a-server"));
    let of = |name: &str, text: &str| Recording {
        file: recording(&["tmp", "p", "chats"], name, text),
        marker: marker(),
    };
    let mut damaged = of("session-3.jsonl", &body);
    damaged.file.data.push(0xff);
    let recordings = vec![
        of("session-1.jsonl", &body),
        of("session-2.jsonl", &body),
        of("notes.jsonl", &body),
        damaged,
    ];
    let found = GeminiAdapter::discover_sessions_in(&recordings, &Vec::new());
    let ids: Vec<&str> = found.iter().map(|s| s.agent_session_id.as_str()).collect();
    assert_eq!(ids, vec!["session-1", "session-2"]);
    assert!(found.iter().all(|s| s.agent == Agent::Gemini));
    assert_eq!(found[0].cwd.as_deref(), Some("/repo/here"));

    let unchanged = vec![recordings[0].file.path.clone()];
    let rest = GeminiAdapter::discover_sessions_in(&recordings, &unchanged);
    assert_eq!(rest.len(), 1);
    assert_eq!(rest[0].agent_session_id, "session-2");
}
