//! Which agent wrote a file, and what is a title.
use noending::adapters::fingerprint::{detect_format, fingerprint_line};
use noending::adapters::{is_injected_preamble, title_from_text, truncate_text};
use noending::domain::Agent;
use noending::json::{parse, Json};

fn doc(text: &str) -> Json {
    parse(text).unwrap()
}

fn head(text: &str) -> Vec<String> {
    text.lines().map(|l| l.to_string()).collect()
}

#[test]
fn fingerprints_match_real_line_shapes() {
    // Codex: the {ordinal, payload, type} envelope
    let codex = doc(
        r#"{"ordinal": 0, "type": "session_meta", "timestamp": "t",
            "payload": {"session_id": "s", "cwd": "/x"}}"#,
    );
    assert_eq!(fingerprint_line(&codex), Some(Agent::Codex));

    // claude_code: event chain line (parentUuid may be null on the first one)
    let claude = doc(
        r#"{"type": "user", "sessionId": "s", "uuid": "u", "parentUuid": null,
            "message": {"role": "user", "content": []}}"#,
    );
    assert_eq!(fingerprint_line(&claude), Some(Agent::ClaudeCode));

    // its housekeeping lines are NOT decisive on their own
    let queue_op = doc(
        r#"{"type": "queue-operation", "operation": "enqueue", "sessionId": "s", "timestamp": "t"}"#,
    );
    assert_eq!(fingerprint_line(&queue_op), None);

    // Pi: self-describing session header, or provider/modelId/thinkingLevel lines
    let pi_header = doc(r#"{"type": "session", "id": "p1", "cwd": "/x", "version": 3}"#);
    assert_eq!(fingerprint_line(&pi_header), Some(Agent::Pi));
    let pi_event = doc(
        r#"{"type": "message", "id": "m1", "parentId": "p1",
            "provider": "openai", "modelId": "m"}"#,
    );
    assert_eq!(fingerprint_line(&pi_event), Some(Agent::Pi));

    // Anything else (including foreign tools' exports) is not a session
    let other = doc(r#"{"hello": "world", "data": [1, 2, 3]}"#);
    assert_eq!(fingerprint_line(&other), None);
}

#[test]
fn qoder_is_claimed_before_claude() {
    // A Qoder bookkeeping line: no uuid/sessionId pair, but decisive.
    let qoder_line = r#"{"type": "workspace-directories", "sessionId": "s", "directories": ["/repo"]}"#;
    assert_eq!(fingerprint_line(&doc(qoder_line)), Some(Agent::Qoder));
    let last_prompt = doc(r#"{"type": "last-prompt", "sessionId": "s"}"#);
    assert_eq!(fingerprint_line(&last_prompt), Some(Agent::Qoder));

    // A Qoder message line is indistinguishable from claude_code's on its own.
    let claude_shaped = r#"{"type": "user", "sessionId": "s", "uuid": "u", "parentUuid": null, "message": {"role": "user", "content": []}}"#;
    assert_eq!(fingerprint_line(&doc(claude_shaped)), Some(Agent::ClaudeCode));

    // A whole Qoder file (head included) resolves to Qoder.
    let file = format!("{}\n{}\n", qoder_line, claude_shaped);
    assert_eq!(detect_format(&head(&file)), Some(Agent::Qoder));
}

#[test]
fn workbuddy_is_claimed_by_its_top_level_shape() {
    let msg = doc(
        r#"{"id": "m1", "timestamp": 1783137449113, "type": "message",
            "role": "user", "content": [{"type": "input_text", "text": "hi"}],
            "sessionId": "s", "cwd": "/repo"}"#,
    );
    assert_eq!(fingerprint_line(&msg), Some(Agent::WorkBuddy));

    let title = doc(
        r#"{"timestamp": 1783137451207, "type": "ai-title", "aiTitle": "t", "sessionId": "s"}"#,
    );
    assert_eq!(fingerprint_line(&title), Some(Agent::WorkBuddy));
    let snapshot = doc(
        r#"{"timestamp": 1783137449152, "type": "file-history-snapshot", "sessionId": "s"}"#,
    );
    assert_eq!(fingerprint_line(&snapshot), Some(Agent::WorkBuddy));

    // pi's nested message line must stay pi.
    let pi_event = doc(
        r#"{"type": "message", "id": "m1", "parentId": "p1", "provider": "openai",
            "message": {"role": "user", "content": [{"type": "text", "text": "hi"}]}}"#,
    );
    assert_eq!(fingerprint_line(&pi_event), Some(Agent::Pi));
}

#[test]
fn detect_format_reads_only_the_head_of_a_file() {
    // junk lines first, then a decisive claude_code event line
    let mixed = "not json at all\n{\"a\":1}\n{\"sessionId\":\"s\",\"uuid\":\"u\",\"message\":{\"role\":\"user\",\"content\":[]}}\n";
    assert_eq!(detect_format(&head(mixed)), Some(Agent::ClaudeCode));

    // a file with no decisive lines is not a session file
    let foreign = "{\"hello\":\"world\"}\n{\"more\":\"data\"}\n";
    assert_eq!(detect_format(&head(foreign)), None);
}

#[test]
fn a_title_is_one_line_and_short() {
    assert_eq!(
        title_from_text("  帮我\n看下这个模块 ").as_deref(),
        Some("帮我 看下这个模块")
    );
    assert_eq!(title_from_text("   \n  "), None);
    let long = "字".repeat(60);
    let t = title_from_text(&long).unwrap();
    assert_eq!(t.chars().count(), 37, "36 chars plus the ellipsis");
}

#[test]
fn a_machine_blob_is_not_a_title() {
    assert_eq!(
        title_from_text("{\"risk_level\":\"medium\",\"outcome\":\"allow\"}"),
        None
    );
    assert_eq!(title_from_text("[1, 2, 3]"), None);
    assert_eq!(
        title_from_text(" {\"a\":1}"),
        None,
        "leading space included"
    );
}

#[test]
fn an_injected_preamble_is_recognized_after_leading_whitespace() {
    assert!(is_injected_preamble("# Files pasted by the user: ## a.png"));
    assert!(is_injected_preamble(
        "\n# Files pasted by the user: ## a.png"
    ));
    assert!(is_injected_preamble("  <environment_context>"));
    assert!(!is_injected_preamble("看一下这个"));
}

#[test]
fn a_short_text_is_not_cut() {
    assert_eq!(truncate_text("字字字", 3), "字字字");
    assert_eq!(truncate_text("字字字字", 3), "字字字…");
}
