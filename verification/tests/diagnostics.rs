//! Records of updates.
use noending::context::diagnostics::{
    cli_failure, log_dir, log_file, prune_old_logs, runtime_dir, safe_error, ContextLogRecord,
    ContextOperation, NoEndingHome,
};
use noending::domain::Agent;
use noending::error::{other, AppError, ContextUpdateError};
use noending::sync::ContextCallFailureKind;
use serde_json::Value;

fn home(root: &str) -> NoEndingHome {
    NoEndingHome {
        root: root.to_string(),
        runtime_dir: format!("{root}/runtime"),
        logs_dir: format!("{root}/logs"),
    }
}

/// The record as one line of the log, with every field that it has.
fn line_of(record: &ContextLogRecord) -> String {
    let text = |s: &str| Value::String(s.to_string());
    let maybe = |s: Option<&str>| s.map(text).unwrap_or(Value::Null);
    let mut line = serde_json::Map::new();
    for (name, value) in [
        ("operation_id", text(&record.operation_id)),
        ("operation_type", text(record.operation_type)),
        ("target_id", text(&record.target_id)),
        ("agent", maybe(record.agent.as_deref())),
        ("model_override", maybe(record.model_override.as_deref())),
        ("cli_invoked", Value::Bool(record.cli_invoked)),
        (
            "cli_exit_code",
            record.cli_exit_code.map(Value::from).unwrap_or(Value::Null),
        ),
        ("cli_start_error", maybe(record.cli_start_error)),
        ("stage", text(record.stage)),
        ("outcome", text(record.outcome)),
        ("error_code", maybe(record.error_code)),
        ("message", maybe(record.message.as_deref())),
    ] {
        line.insert(name.to_string(), value);
    }
    Value::Object(line).to_string()
}

#[test]
fn custom_home_controls_context_runtime_and_logs() {
    let home = home("/tmp/base/custom");
    let runtime = runtime_dir(&home);
    assert!(home.root.ends_with("/custom"));
    assert_eq!(runtime, format!("{}/context-extraction", home.runtime_dir));
    assert_eq!(log_dir(&home), format!("{}/context-extraction", home.logs_dir));
    assert_eq!(
        log_file(&home, "2026-09-26"),
        "/tmp/base/custom/logs/context-extraction/2026-09-26.jsonl"
    );
}

#[test]
fn logging_failure_is_best_effort_and_does_not_fail_operation() {
    let home = home("/tmp/base");
    let mut op = ContextOperation::new("session", "session-test", Some(&home));
    let record = op.succeed("updated");
    assert!(record.is_some());
    assert_eq!(op.operation_id.len(), 36);
}

#[test]
fn error_log_has_stage_and_operation_metadata_without_prompt_or_cli_output() {
    let home = home("/tmp/base");
    let mut op = ContextOperation::new("session", "session-safe-test", Some(&home));
    op.agent = Some("codex".to_string());
    op.model_override = Some("agent-default".to_string());
    op.set_cli_result(true, Some(2), None);
    op.set_stage("output_validation");
    op.fail_with(
        "output_validation",
        "invalid_output",
        "Agent 返回内容不符合 Context 格式，请重试。",
    );
    let (failure, record) = op.fail(&other("prompt: secret; output: secret; stderr: secret"));
    assert_eq!(failure.operation_id, op.operation_id);
    let line = line_of(&record.unwrap());
    assert!(line.contains("\"operation_type\":\"session\""));
    assert!(line.contains("\"target_id\":\"session-safe-test\""));
    assert!(line.contains("\"stage\":\"output_validation\""));
    assert!(line.contains("\"cli_invoked\":true"));
    assert!(line.contains("\"cli_exit_code\":2"));
    assert!(line.contains("\"error_code\":\"invalid_output\""));
    assert!(!line.contains("secret"));
    assert!(!failure.message.contains("secret"));
}

#[test]
fn database_commit_failure_is_logged_as_a_controlled_storage_error() {
    let home = home("/tmp/base");
    let mut op = ContextOperation::new("workstream", "workstream-safe-test", Some(&home));
    op.set_stage("database_commit");
    let (failure, record) = op.fail(&other("private database value"));
    assert_eq!(failure.code, "storage_failed");
    assert_eq!(failure.operation_id, op.operation_id);
    let line = line_of(&record.unwrap());
    assert!(line.contains("\"stage\":\"database_commit\""));
    assert!(line.contains("\"error_code\":\"storage_failed\""));
    assert!(!line.contains("private database value"));
}

#[test]
fn daily_log_prunes_only_own_files_older_than_fourteen_days() {
    let names = vec!["2020-01-01.jsonl".to_string(), "keep.txt".to_string()];
    let gone = prune_old_logs(&names, "2026-09-26");
    assert!(gone.contains(&"2020-01-01.jsonl".to_string()));
    assert!(!gone.contains(&"keep.txt".to_string()));
}

#[test]
fn a_log_is_kept_for_fourteen_days() {
    let names = vec![
        "2026-09-11.jsonl".to_string(),
        "2026-09-12.jsonl".to_string(),
        "2026-13-01.jsonl".to_string(),
        "2026-09-01.json".to_string(),
    ];
    assert_eq!(prune_old_logs(&names, "2026-09-26"), vec!["2026-09-11.jsonl"]);
}

#[test]
fn what_is_told_does_not_depend_on_the_text() {
    let codes = [
        (AppError::Io("x".to_string()), "io_failed"),
        (AppError::Db("x".to_string()), "storage_failed"),
        (AppError::Json("x".to_string()), "storage_failed"),
        (
            AppError::Context(ContextUpdateError::AiUnavailable("x".to_string())),
            "ai_unavailable",
        ),
        (
            AppError::Context(ContextUpdateError::ModelCallFailed("x".to_string())),
            "model_call_failed",
        ),
        (
            AppError::Context(ContextUpdateError::InvalidOutput("x".to_string())),
            "invalid_output",
        ),
        (
            AppError::Context(ContextUpdateError::ConcurrencyConflict("x".to_string())),
            "stale_snapshot",
        ),
        (
            AppError::Context(ContextUpdateError::InputTooLarge("x".to_string())),
            "input_too_large",
        ),
        (
            AppError::Context(ContextUpdateError::Storage("x".to_string())),
            "storage_failed",
        ),
        (other("x"), "target_unavailable"),
    ];
    for (error, code) in codes {
        assert_eq!(safe_error(&error, "snapshot").0, code);
    }
    assert_eq!(safe_error(&other("x"), "model_call").0, "update_failed");
}

#[test]
fn the_supported_agents_are_named_as_they_are_shown() {
    let (code, message) = cli_failure(ContextCallFailureKind::UnsupportedAgent);
    assert_eq!(code, "agent_unsupported");
    assert!(message.contains(&Agent::ClaudeCode.display_name()));
    assert_eq!(
        Agent::ClaudeCode
            .display_name()
            .to_lowercase()
            .replace(' ', "_"),
        Agent::ClaudeCode.as_str()
    );
    assert_eq!(Agent::Pi.display_name(), "Pi");
    assert_eq!(Agent::Dsh.display_name(), "DeepSeek Harness");
}

#[test]
fn without_a_home_nothing_is_written_down() {
    let mut op = ContextOperation::new("session", "s", None);
    assert!(op.succeed("updated").is_none());
    assert!(op.fail(&other("x")).1.is_none());
}
