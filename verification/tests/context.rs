//! Updates of contexts.
use noending::agent_runtime::AgentRuntimeOverrides;
use noending::context::diagnostics::{
    log_dir, runtime_dir, ContextLogRecord, ContextOperation, NoEndingHome,
};
use noending::context::launch::{
    conclude, run_context_once, runtime_dir_failed, CliExtractor, ContextLaunchConfig,
    ContextUpdateStatus,
};
use noending::context::parts::{ReadOnlySession, TargetSession};
use noending::context::select::{select_workstream_inputs, WorkstreamRequest};
use noending::context::session::{
    finish_session_update, is_countable, update_session, SessionStep,
};
use noending::context::views::{session_context_view, workstream_context_view};
use noending::context::workstream::{
    commit_workstream_update, do_counters_fit, finish_workstream_update, update_workstream,
    WorkstreamStep, WorkstreamUpdateOutcome,
};
use noending::domain::{Agent, SessionMessageRole};
use noending::error::AppError;
use noending::store::{
    Session, SessionContextFields, SessionIngestState, SessionMessage, Store, Workstream,
    WorkstreamContextState, WorkstreamSessionFrontier,
};
use noending::sync::{
    ContextCallFailure, ContextCallFailureKind, ContextUpdateOutput, InputLimits, Prompt,
    PromptInput, SessionContextDraft,
};

const NOW: &str = "2026-09-26T08:00:00Z";

type Stored = Option<Result<AgentRuntimeOverrides, String>>;

fn test_workstream(id: &str) -> Workstream {
    Workstream {
        id: id.to_string(),
        title: "Context test".to_string(),
        description: String::new(),
        lifecycle: "active".to_string(),
        visibility: "normal".to_string(),
        created_at: NOW.to_string(),
        updated_at: NOW.to_string(),
    }
}

fn test_session(id: &str) -> Session {
    Session {
        id: id.to_string(),
        agent: Agent::Codex,
        root_agent_session_id: format!("root-{id}"),
        title: Some(id.to_string()),
        owner_workstream_id: None,
        cwd: None,
        workspace_path_id: None,
        project_id: None,
        forked_from_session_id: None,
        started_at: None,
        last_activity_at: None,
        last_conversation_at: None,
        trashed_at: None,
    }
}

fn home() -> NoEndingHome {
    NoEndingHome {
        root: "/home/noending".to_string(),
        runtime_dir: "/home/noending/runtime".to_string(),
        logs_dir: "/home/noending/logs".to_string(),
    }
}

fn limits() -> InputLimits {
    InputLimits {
        input_limit: 48_000,
        session_reserve: 2_000,
        workstream_reserve: 4_000,
    }
}

fn render(input: &PromptInput) -> Prompt {
    let mut text = format!(
        "{}\n{}\n{}\n",
        input.workstream_title,
        input.workstream_description,
        input.item_lines.join("\n")
    );
    for s in &input.sessions {
        text.push_str(&s.session_id);
        text.push('\n');
    }
    for m in &input.messages {
        text.push_str(&m.content);
        text.push('\n');
    }
    Prompt {
        text,
        refs: Vec::new(),
    }
}

fn add_session(store: &mut Store, id: &str, message_count: usize, message_size: usize) {
    store.sessions.push(test_session(id));
    for i in 0..message_count {
        store.messages.push(SessionMessage {
            id: format!("{id}-m{i}"),
            session_id: id.to_string(),
            source_message_id: Some(format!("source-{i}")),
            sequence: i as i64 + 1,
            ts: None,
            role: SessionMessageRole::User,
            content: "x".repeat(message_size),
        });
    }
    store.ingest.push(SessionIngestState {
        session_id: id.to_string(),
        generation: 0,
        latest_message_seq: message_count as i64,
    });
}

fn own(store: &mut Store, session: &str, workstream: &str) {
    for s in store.sessions.iter_mut() {
        if s.id == session {
            s.owner_workstream_id = Some(workstream.to_string());
        }
    }
}

fn draft(session_id: &str) -> SessionContextDraft {
    SessionContextDraft {
        session_id: session_id.to_string(),
        fields: SessionContextFields {
            summary_current_state: "context updated".to_string(),
            decisions: Vec::new(),
            open_questions: Vec::new(),
            next_steps: Vec::new(),
        },
    }
}

/// What a reply is read as: `ok:<session>` is a summary of that session.
fn read_reply(raw: &str) -> Result<ContextUpdateOutput, String> {
    match raw.strip_prefix("ok:") {
        Some(id) => Ok(ContextUpdateOutput {
            session_contexts: vec![draft(id)],
            workstream_mutations: Vec::new(),
        }),
        None => Err("no JSON".to_string()),
    }
}

type Reply = Result<String, ContextCallFailure>;

fn session_update(
    store: &mut Store,
    id: &str,
    agent: &str,
    stored: &Stored,
    dir_is_there: bool,
    run: &mut dyn FnMut(&mut Store, &CliExtractor, &str) -> Reply,
) -> (Result<ContextUpdateStatus, AppError>, ContextLogRecord) {
    assert!(is_countable(store, id));
    let launch = ContextLaunchConfig::from_settings(agent, stored);
    let mut op = ContextOperation::new("session", id, Some(&home()));
    let step = update_session(store, id, &launch, &mut op, &render, &limits(), NOW);
    let outcome = match step {
        Err(e) => Err(e),
        Ok(SessionStep::Done(o)) => Ok(o.status),
        Ok(SessionStep::Ask(ask)) => {
            if !dir_is_there {
                Err(runtime_dir_failed(&mut op))
            } else {
                let reply = run(store, &ask.cli, &runtime_dir(&home()));
                match run_context_once(&ask.cli, reply, &mut op) {
                    Err(e) => Err(e),
                    Ok(raw) => {
                        finish_session_update(store, &ask, &read_reply(&raw), &mut op, NOW)
                            .map(|o| o.status)
                    }
                }
            }
        }
    };
    let (result, record) = conclude(&mut op, outcome);
    (result, record.unwrap())
}

fn workstream_update(
    store: &mut Store,
    id: &str,
    run: &mut dyn FnMut(&mut Store, &CliExtractor, &str) -> Reply,
) -> (
    Result<ContextUpdateStatus, AppError>,
    ContextLogRecord,
    Option<WorkstreamUpdateOutcome>,
) {
    let launch = ContextLaunchConfig::from_settings("codex", &None);
    let mut op = ContextOperation::new("workstream", id, Some(&home()));
    let mut done: Option<WorkstreamUpdateOutcome> = None;
    let step = update_workstream(store, id, &launch, &mut op, &render, &limits());
    let outcome = match step {
        Err(e) => Err(e),
        Ok(WorkstreamStep::Done(o)) => Ok(o.status),
        Ok(WorkstreamStep::Ask(ask)) => {
            assert!(do_counters_fit(&ask));
            let reply = run(store, &ask.cli, &runtime_dir(&home()));
            match run_context_once(&ask.cli, reply, &mut op) {
                Err(e) => Err(e),
                Ok(raw) => match finish_workstream_update(
                    store,
                    &ask,
                    &read_reply(&raw),
                    &Vec::new(),
                    &mut op,
                    NOW,
                ) {
                    Ok(o) => {
                        let status = o.status;
                        done = Some(o);
                        Ok(status)
                    }
                    Err(e) => Err(e),
                },
            }
        }
    };
    let (result, record) = conclude(&mut op, outcome);
    (result, record.unwrap(), done)
}

fn code(result: Result<ContextUpdateStatus, AppError>) -> String {
    match result.err().unwrap() {
        AppError::ContextUpdateFailed(failure) => failure.code,
        other => panic!("expected structured Context error, got {}", other.message()),
    }
}

#[test]
fn service_no_change_and_early_config_failure_are_logged_without_cli() {
    let mut store = Store::new();
    store.workstreams.push(test_workstream("service-no-change"));
    let mut calls = 0;
    let mut runner = |_: &mut Store, _: &CliExtractor, _: &str| -> Reply {
        calls += 1;
        unreachable!("nothing to ask")
    };
    let (no_change, record, _) = workstream_update(&mut store, "service-no-change", &mut runner);
    assert_eq!(no_change.ok().unwrap(), ContextUpdateStatus::NoChange);
    assert_eq!(record.stage, "no_change");
    assert_eq!(record.outcome, "no_change");
    assert_eq!(record.cli_invoked, false);

    add_session(&mut store, "empty", 0, 0);
    let (empty, record) =
        session_update(&mut store, "empty", "codex", &None, true, &mut runner);
    assert_eq!(empty.ok().unwrap(), ContextUpdateStatus::NoChange);
    assert_eq!(record.outcome, "no_change");
    assert_eq!(record.cli_invoked, false);

    add_session(&mut store, "s", 1, 64);
    let (result, record) = session_update(&mut store, "s", "none", &None, true, &mut runner);
    assert_eq!(code(result), "agent_not_configured");
    assert_eq!(record.stage, "runtime_configuration");
    assert_eq!(record.cli_invoked, false);
    assert_eq!(record.agent.as_deref(), Some("none"));
    assert_eq!(calls, 0);
}

#[test]
fn service_session_updates_are_partial_then_complete_and_record_each_call() {
    let mut store = Store::new();
    add_session(&mut store, "s", 50, 1_200);
    let mut runner = |_: &mut Store, cli: &CliExtractor, dir: &str| -> Reply {
        assert_eq!(cli.agent, Agent::Codex);
        assert_eq!(dir, runtime_dir(&home()));
        Ok("ok:s".to_string())
    };

    let (first, record) = session_update(&mut store, "s", "codex", &None, true, &mut runner);
    assert_eq!(first.ok().unwrap(), ContextUpdateStatus::Partial);
    assert!(session_context_view(&store, "s").pending);
    assert_eq!(record.outcome, "partial");
    assert_eq!(record.cli_invoked, true);

    let (second, record) = session_update(&mut store, "s", "codex", &None, true, &mut runner);
    assert_eq!(second.ok().unwrap(), ContextUpdateStatus::Updated);
    let view = session_context_view(&store, "s");
    assert!(!view.pending);
    assert_eq!(
        view.fields.unwrap().summary_current_state,
        "context updated"
    );
    assert_eq!(record.outcome, "updated");
    assert_eq!(record.cli_invoked, true);
}

#[test]
fn service_freezes_the_launch_agent_and_override_for_invocation_and_log() {
    let mut store = Store::new();
    add_session(&mut store, "s", 1, 80);
    let stored: Stored = Some(Ok(AgentRuntimeOverrides {
        model: Some("gpt-context-test".to_string()),
        provider: None,
        effort: None,
    }));
    let mut runner = |_: &mut Store, cli: &CliExtractor, _: &str| -> Reply {
        assert_eq!(cli.agent, Agent::Codex);
        assert_eq!(cli.opts.model.as_deref(), Some("gpt-context-test"));
        Ok("ok:s".to_string())
    };
    let (_, record) = session_update(&mut store, "s", "codex", &stored, true, &mut runner);
    assert_eq!(record.agent.as_deref(), Some("codex"));
    assert_eq!(record.model_override.as_deref(), Some("model=gpt-context-test"));
}

#[test]
fn service_invalid_workstream_output_logs_validation_and_preserves_context_and_frontiers() {
    let mut store = Store::new();
    store.workstreams.push(test_workstream("w"));
    add_session(&mut store, "s", 1, 80);
    own(&mut store, "s", "w");
    assert!(store.frontiers.is_empty());
    let before = store.get_workstream_context_state("w");
    let mut runner =
        |_: &mut Store, _: &CliExtractor, _: &str| -> Reply { Ok("not JSON".to_string()) };

    let (result, record, _) = workstream_update(&mut store, "w", &mut runner);
    assert_eq!(code(result), "invalid_output");
    assert!(store.get_session_context("s").is_none());
    let after = store.get_workstream_context_state("w");
    assert_eq!(after.context_revision, before.context_revision);
    assert_eq!(after.input_revision, before.input_revision);
    assert_eq!(
        after.consumed_input_revision,
        before.consumed_input_revision
    );
    assert!(store.frontiers.is_empty());
    assert_eq!(record.stage, "output_validation");
    assert_eq!(record.cli_invoked, true);
    assert_eq!(record.error_code, Some("invalid_output"));
}

#[test]
fn service_workstream_success_commits_session_context_and_frontier() {
    let mut store = Store::new();
    store.workstreams.push(test_workstream("w"));
    add_session(&mut store, "s", 1, 80);
    own(&mut store, "s", "w");
    let mut runner =
        |_: &mut Store, _: &CliExtractor, _: &str| -> Reply { Ok("ok:s".to_string()) };

    let (result, record, outcome) = workstream_update(&mut store, "w", &mut runner);
    assert_eq!(result.ok().unwrap(), ContextUpdateStatus::Updated);
    assert_eq!(outcome.unwrap().updated_sessions, vec!["s".to_string()]);
    assert_eq!(
        store
            .get_session_context("s")
            .unwrap()
            .fields
            .summary_current_state,
        "context updated"
    );
    assert_eq!(store.frontiers.len(), 1);
    assert_eq!(store.frontiers[0].session_id, "s");
    assert_eq!(store.frontiers[0].consumed_through_seq, 1);
    assert_eq!(record.stage, "updated");
    assert_eq!(record.cli_invoked, true);
}

#[test]
fn service_workstream_commit_conflict_is_logged_after_the_cli_call() {
    let mut store = Store::new();
    store.workstreams.push(test_workstream("w"));
    add_session(&mut store, "s", 1, 80);
    own(&mut store, "s", "w");
    let mut runner = |store: &mut Store, _: &CliExtractor, _: &str| -> Reply {
        store.states.push(WorkstreamContextState {
            workstream_id: "w".to_string(),
            context_revision: 0,
            input_revision: 1,
            consumed_input_revision: 0,
        });
        Ok("ok:s".to_string())
    };
    let (result, record, _) = workstream_update(&mut store, "w", &mut runner);
    assert_eq!(code(result), "stale_snapshot");
    assert!(store.get_session_context("s").is_none());
    assert_eq!(record.stage, "database_commit");
    assert_eq!(record.cli_invoked, true);
    assert_eq!(record.error_code, Some("stale_snapshot"));
}

#[test]
fn service_runtime_directory_failure_never_invokes_runner() {
    let mut store = Store::new();
    add_session(&mut store, "s", 1, 80);
    let mut calls = 0;
    let mut runner = |_: &mut Store, _: &CliExtractor, _: &str| -> Reply {
        calls += 1;
        Ok("ok:s".to_string())
    };
    let (result, record) = session_update(&mut store, "s", "codex", &None, false, &mut runner);
    assert_eq!(code(result), "runtime_dir_unavailable");
    assert_eq!(calls, 0);
    assert_eq!(record.stage, "runtime_setup");
    assert_eq!(record.cli_invoked, false);
}

#[test]
fn service_success_survives_unwritable_context_log_directory() {
    // The record is a value: what becomes of it does not touch the update.
    let mut store = Store::new();
    add_session(&mut store, "s", 1, 80);
    let mut runner =
        |_: &mut Store, _: &CliExtractor, _: &str| -> Reply { Ok("ok:s".to_string()) };
    let (outcome, _) = session_update(&mut store, "s", "codex", &None, true, &mut runner);
    assert_eq!(outcome.ok().unwrap(), ContextUpdateStatus::Updated);
    assert_eq!(
        store
            .get_session_context("s")
            .unwrap()
            .fields
            .summary_current_state,
        "context updated"
    );
}

#[test]
fn service_target_state_errors_keep_recovery_instructions() {
    let mut store = Store::new();
    add_session(&mut store, "s", 1, 80);
    store.sessions[0].trashed_at = Some(NOW.to_string());
    let mut runner = |_: &mut Store, _: &CliExtractor, _: &str| -> Reply {
        unreachable!("trashed session cannot invoke the CLI")
    };
    let (result, record) = session_update(&mut store, "s", "codex", &None, true, &mut runner);
    assert_eq!(code(result), "session_trashed");
    assert!(record.message.unwrap().contains("恢复"));

    let mut archived = test_workstream("service-archived");
    archived.visibility = "archived".to_string();
    store.workstreams.push(archived);
    let (result, record, _) = workstream_update(&mut store, "service-archived", &mut runner);
    assert_eq!(code(result), "workstream_archived");
    assert!(record.message.unwrap().contains("恢复"));
}

#[test]
fn backlog_budget_reserves_output_for_only_the_included_prefix() {
    let targets: Vec<TargetSession> = (0..10)
        .map(|i| TargetSession {
            session: test_session(&format!("session-{i}")),
            existing: None,
            generation: 0,
            from: 0,
            messages: Vec::new(),
        })
        .collect();
    let request = WorkstreamRequest {
        title: "Context test".to_string(),
        description: String::new(),
        item_lines: Vec::new(),
    };
    let few = InputLimits {
        input_limit: 16_000,
        session_reserve: 2_000,
        workstream_reserve: 4_000,
    };
    let (included, _) = select_workstream_inputs(&render, &request, &targets, &Vec::new(), &few)
        .ok()
        .unwrap();
    assert!(included > 0);
    assert!(
        included < targets.len(),
        "the backlog is returned as a prefix"
    );
}

fn frontier(session: &str, revision: i64) -> WorkstreamSessionFrontier {
    WorkstreamSessionFrontier {
        workstream_id: "w".to_string(),
        session_id: session.to_string(),
        session_context_revision: revision,
        ingest_generation: 0,
        consumed_through_seq: 0,
    }
}

fn summary(text: &str) -> SessionContextFields {
    SessionContextFields {
        summary_current_state: text.to_string(),
        decisions: Vec::new(),
        open_questions: Vec::new(),
        next_steps: Vec::new(),
    }
}

#[test]
fn workstream_update_advances_read_only_and_preserves_unchanged_frontiers() {
    let mut store = Store::new();
    store.workstreams.push(test_workstream("w"));
    for id in ["changed", "unchanged", "former"] {
        add_session(&mut store, id, 0, 0);
    }
    own(&mut store, "changed", "w");
    own(&mut store, "unchanged", "w");
    store.set_workstream_frontier(frontier("unchanged", 0));
    store.set_workstream_frontier(frontier("former", 0));
    let first = store.commit_session_context("changed", &summary("first summary"), 0, 0, 0, NOW);
    store.set_workstream_frontier(frontier("changed", first));
    let next =
        store.commit_session_context("changed", &summary("revised summary"), first, 0, 0, NOW);
    let state = store.get_workstream_context_state("w");
    assert!(workstream_context_view(&store, "w").ok().unwrap().pending);

    let read_only = vec![ReadOnlySession {
        session_id: "changed".to_string(),
        context: store.get_session_context("changed").map(|c| c.copy()),
        generation: 0,
        latest_message_seq: 0,
        invalidate_context: false,
    }];
    let done = commit_workstream_update(
        &mut store,
        "w",
        &state,
        &Vec::new(),
        &read_only,
        &ContextUpdateOutput {
            session_contexts: Vec::new(),
            workstream_mutations: Vec::new(),
        },
        &Vec::new(),
        NOW,
    );
    assert!(done.is_ok());
    let changed = store.get_frontier("w", "changed").unwrap();
    assert_eq!(changed.session_context_revision, next);
    assert!(store.get_frontier("w", "unchanged").is_some());
    assert!(store.get_frontier("w", "former").is_none());
    assert!(!workstream_context_view(&store, "w").ok().unwrap().pending);
}

#[test]
fn a_failed_call_is_told_by_its_kind() {
    let kinds = [
        (ContextCallFailureKind::AgentUnavailable, "cli_unavailable"),
        (ContextCallFailureKind::UnsupportedAgent, "agent_unsupported"),
        (ContextCallFailureKind::CommandInvalid, "runtime_dir_unavailable"),
        (ContextCallFailureKind::Start, "cli_start_failed"),
        (ContextCallFailureKind::Wait, "cli_wait_failed"),
        (ContextCallFailureKind::Exit, "cli_failed"),
        (ContextCallFailureKind::Timeout, "cli_timeout"),
    ];
    for (kind, expected) in kinds {
        let mut store = Store::new();
        add_session(&mut store, "s", 1, 80);
        let mut runner = |_: &mut Store, _: &CliExtractor, _: &str| -> Reply {
            Err(ContextCallFailure {
                kind,
                spawned: true,
                exit_code: Some(3),
                io_error_kind: None,
            })
        };
        let (result, record) = session_update(&mut store, "s", "codex", &None, true, &mut runner);
        assert_eq!(code(result), expected);
        assert_eq!(record.cli_exit_code, Some(3));
        assert!(store.contexts.is_empty());
    }
}

#[test]
fn an_invalid_configuration_is_told() {
    let mut store = Store::new();
    add_session(&mut store, "s", 1, 80);
    let mut runner = |_: &mut Store, _: &CliExtractor, _: &str| -> Reply { unreachable!() };
    let (result, record) = session_update(&mut store, "s", "nobody", &None, true, &mut runner);
    assert_eq!(code(result), "agent_configuration_invalid");
    assert_eq!(record.agent.as_deref(), Some("invalid"));
    let broken: Stored = Some(Err("not JSON".to_string()));
    let (result, _) = session_update(&mut store, "s", "codex", &broken, true, &mut runner);
    assert_eq!(code(result), "runtime_configuration_invalid");
    let (result, _) = session_update(&mut store, "missing", "codex", &None, true, &mut runner);
    assert_eq!(code(result), "session_missing");
    let (result, _, _) = workstream_update(&mut store, "missing", &mut runner);
    assert_eq!(code(result), "workstream_missing");
}

#[test]
fn a_message_that_is_too_large_is_refused() {
    let mut store = Store::new();
    add_session(&mut store, "s", 1, 60_000);
    let mut runner = |_: &mut Store, _: &CliExtractor, _: &str| -> Reply { unreachable!() };
    let (result, _) = session_update(&mut store, "s", "codex", &None, true, &mut runner);
    assert_eq!(code(result), "input_too_large");
}

#[test]
fn without_a_home_nothing_is_done() {
    let mut store = Store::new();
    add_session(&mut store, "s", 1, 80);
    let launch = ContextLaunchConfig::from_settings("codex", &None);
    let mut op = ContextOperation::new("session", "s", None);
    let step = update_session(&mut store, "s", &launch, &mut op, &render, &limits(), NOW);
    let (result, record) = conclude(
        &mut op,
        step.map(|_| ContextUpdateStatus::NoChange),
    );
    assert_eq!(code(result), "home_unavailable");
    assert!(record.is_none());
}

#[test]
fn a_replaced_conversation_takes_its_summary_away() {
    let mut store = Store::new();
    add_session(&mut store, "s", 0, 0);
    store.commit_session_context("s", &summary("old"), 0, 0, 3, NOW);
    store.ingest[0].generation = 1;
    assert!(session_context_view(&store, "s").pending);
    let mut runner = |_: &mut Store, _: &CliExtractor, _: &str| -> Reply { unreachable!() };
    let (result, _) = session_update(&mut store, "s", "codex", &None, true, &mut runner);
    assert_eq!(result.ok().unwrap(), ContextUpdateStatus::Updated);
    let view = session_context_view(&store, "s");
    assert!(!view.pending);
    assert_eq!(view.fields.unwrap().summary_current_state, "");
    assert_eq!(view.revision, 2);
}

#[test]
fn a_whole_update_leaves_nothing_to_do() {
    let mut store = Store::new();
    store.workstreams.push(test_workstream("w"));
    add_session(&mut store, "s", 2, 80);
    own(&mut store, "s", "w");
    assert_eq!(
        workstream_context_view(&store, "w").ok().unwrap().pending_sessions,
        1
    );
    let mut runner =
        |_: &mut Store, _: &CliExtractor, _: &str| -> Reply { Ok("ok:s".to_string()) };
    let (result, _, _) = workstream_update(&mut store, "w", &mut runner);
    assert_eq!(result.ok().unwrap(), ContextUpdateStatus::Updated);
    let view = workstream_context_view(&store, "w").ok().unwrap();
    assert!(!view.pending);
    assert_eq!(view.pending_sessions, 0);
    let mut idle = |_: &mut Store, _: &CliExtractor, _: &str| -> Reply { unreachable!() };
    let (again, _, _) = workstream_update(&mut store, "w", &mut idle);
    assert_eq!(again.ok().unwrap(), ContextUpdateStatus::NoChange);
}

#[test]
fn logs_and_runtime_stand_under_the_home() {
    assert_eq!(log_dir(&home()), "/home/noending/logs/context-extraction");
    assert_eq!(runtime_dir(&home()), "/home/noending/runtime/context-extraction");
}

#[test]
fn a_target_that_does_not_fit_ends_the_choice() {
    // A prompt about two targets is larger than one about three: the third is not reached.
    let odd = |input: &PromptInput| Prompt {
        text: "x".repeat(if input.sessions.len() == 2 { 90 } else { 10 }),
        refs: Vec::new(),
    };
    let target = |id: &str| TargetSession {
        session: test_session(id),
        existing: None,
        generation: 0,
        from: 0,
        messages: Vec::new(),
    };
    let request = WorkstreamRequest {
        title: String::new(),
        description: String::new(),
        item_lines: Vec::new(),
    };
    let limits = InputLimits {
        input_limit: 50,
        session_reserve: 1,
        workstream_reserve: 1,
    };
    let targets = vec![target("a"), target("b"), target("c")];
    let (included, prompt) =
        select_workstream_inputs(&odd, &request, &targets, &Vec::new(), &limits)
            .ok()
            .unwrap();
    assert_eq!(included, 1);
    assert_eq!(prompt.text.len(), 10);
}
