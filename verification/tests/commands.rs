//! What the user interface asks for.
use noending::agent_runtime::store::SettingWrite;
use noending::agent_runtime::AgentRuntimeOverrides;
use noending::commands::agents::{
    agent_of, assistant_config_set, default_agent_of, get_agent_runtime_settings,
    get_agent_status, get_default_agent, record_installation_probe, set_agent_runtime_overrides,
    set_default_agent,
};
use noending::commands::context::{
    add_context_item, edit_context_item, get_workstream_context, resolve_launch_intent,
    sync_session, EditItemArgs, NewItemArgs, Surroundings,
};
use noending::commands::launches::{
    cancel_prepared, consume_prepared_launch, keep_prepared, prune_stale_prepared_launches,
    PreparedLaunch,
};
use noending::commands::project::{create_project, rename_project, update_project, Project};
use noending::commands::session_workspace::{
    get_session_detail, set_session_owner_workstream, SessionFacts, SessionMemberStats,
    WorkspacePath,
};
use noending::commands::workspace::{
    get_workspace_settings, set_noending_home, BootstrapPointer, HomeSource, RunningHome,
};
use noending::commands::workstream::{
    later_ts, workstream_cards, CardRow, LatestSessionInfo, PrimaryPath, ProjectName,
};
use noending::commands::{add_ingest_source, recent_paths_limit, AppState};
use noending::domain::{Agent, AgentInstallation, SessionMessageRole, SourceAvailability};
use noending::json::Json;
use noending::store::{
    ContextConflict, ContextItem, ContextItemRevision, ItemRow, Session, SessionMessage, Store,
    Workstream,
};

const NOW: &str = "2026-09-26T08:00:00Z";

fn some(s: &str) -> Option<String> {
    Some(s.to_string())
}

fn installed(agent: Agent) -> AgentInstallation {
    AgentInstallation {
        agent,
        executable_path: format!("/bin/{}", agent.as_str()),
        version: some("1"),
    }
}

fn session(id: &str) -> Session {
    Session {
        id: id.to_string(),
        agent: Agent::Codex,
        root_agent_session_id: format!("root-{id}"),
        title: None,
        owner_workstream_id: None,
        cwd: None,
        workspace_path_id: None,
        project_id: None,
        forked_from_session_id: None,
        started_at: None,
        last_activity_at: None,
        last_conversation_at: None,
        trashed_at: None,
    }
}

fn workstream(id: &str, updated_at: &str) -> Workstream {
    Workstream {
        id: id.to_string(),
        title: id.to_string(),
        description: String::new(),
        lifecycle: "active".to_string(),
        visibility: "normal".to_string(),
        created_at: NOW.to_string(),
        updated_at: updated_at.to_string(),
    }
}

fn item(id: &str, workstream: &str, kind: &str, status: &str) -> ItemRow {
    ItemRow {
        item: ContextItem {
            id: id.to_string(),
            workstream_id: workstream.to_string(),
            kind: kind.to_string(),
            status: status.to_string(),
            authority: "user_explicit".to_string(),
            created_by: "user".to_string(),
            current_revision_id: some(&format!("{id}-r")),
            supersedes_item_id: None,
            created_at: NOW.to_string(),
            updated_at: NOW.to_string(),
        },
        revision: ContextItemRevision {
            id: format!("{id}-r"),
            item_id: id.to_string(),
            title: format!("title of {id}"),
            content: "text".to_string(),
            metadata: Json::Null,
            source_type: None,
            source_ref: None,
            sync_run_id: None,
            created_at: NOW.to_string(),
        },
    }
}

// ---- Agents ----

#[test]
fn a_choice_counts_even_where_it_is_not_installed() {
    let rows = vec![installed(Agent::Pi)];
    assert_eq!(default_agent_of(&some("codex"), &rows), Some(Agent::Codex));
    assert_eq!(default_agent_of(&some("nobody"), &rows), Some(Agent::Pi));
    assert_eq!(default_agent_of(&None, &rows), Some(Agent::Pi));
    assert_eq!(default_agent_of(&None, &Vec::new()), None);
    let both = vec![installed(Agent::Pi), installed(Agent::Codex)];
    assert_eq!(get_default_agent(&None, &both).as_deref(), Some("codex"));
}

#[test]
fn a_program_that_is_gone_is_forgotten() {
    let mut rows = vec![installed(Agent::Codex)];
    record_installation_probe(&mut rows, Agent::Pi, Some(installed(Agent::Pi)));
    assert_eq!(rows.len(), 2);
    let mut newer = installed(Agent::Pi);
    newer.version = some("2");
    record_installation_probe(&mut rows, Agent::Pi, Some(newer));
    assert_eq!(rows.len(), 2);
    assert_eq!(rows[1].version.as_deref(), Some("2"));
    record_installation_probe(&mut rows, Agent::Codex, None);
    assert_eq!(rows.len(), 1);
    assert_eq!(default_agent_of(&None, &rows), Some(Agent::Pi));
}

#[test]
fn names_of_agents_are_checked() {
    assert_eq!(agent_of("pi").ok(), Some(Agent::Pi));
    assert_eq!(agent_of("x").err().unwrap().message(), "未知 Agent: x");
    assert_eq!(set_default_agent("pi").ok().as_deref(), Some("pi"));
    assert_eq!(set_default_agent("x").err().unwrap().message(), "未知 Agent");
    assert_eq!(assistant_config_set("none").ok().as_deref(), Some("none"));
    assert_eq!(assistant_config_set("codex").ok().as_deref(), Some("codex"));
    assert!(assistant_config_set("x").is_err());
}

#[test]
fn every_agent_has_a_status() {
    let status = get_agent_status(&vec![installed(Agent::Pi)]);
    assert_eq!(status.len(), 10);
    for s in &status {
        assert_eq!(s.detected, s.agent == Agent::Pi);
        assert_eq!(s.name, s.agent.display_name());
    }
    assert_eq!(status[2].executable.as_deref(), Some("/bin/pi"));
}

#[test]
fn settings_of_an_agent_show_what_was_set() {
    let rows = vec![installed(Agent::Codex)];
    let wanted = AgentRuntimeOverrides {
        model: some(" gpt "),
        provider: some("  "),
        effort: None,
    };
    let (write, shown) = set_agent_runtime_overrides("codex", &rows, &wanted).ok().unwrap();
    assert!(matches!(write, SettingWrite::Save { .. }));
    assert_eq!(shown.overrides.model.as_deref(), Some("gpt"));
    assert_eq!(shown.overrides.provider, None);
    assert_eq!(shown.model_source, "not_loaded");
    assert!(shown.models.is_empty());
    assert!(shown.detected);
    let refused = AgentRuntimeOverrides {
        model: None,
        provider: some("p"),
        effort: None,
    };
    assert!(set_agent_runtime_overrides("codex", &rows, &refused).is_err());
    let broken: Option<Result<AgentRuntimeOverrides, String>> = Some(Err("bad".to_string()));
    let e = get_agent_runtime_settings("codex", &rows, &broken).err().unwrap();
    assert!(e.message().contains("agent.runtime.codex"));
    assert!(e.message().contains("bad"));
}

// ---- Prepared launches ----

fn prepared(id: &str, at: &str) -> PreparedLaunch {
    PreparedLaunch {
        id: id.to_string(),
        prepared_at: at.to_string(),
        agent: Agent::Codex,
        owner_workstream_id: None,
        session_id: None,
        cwd: None,
    }
}

#[test]
fn a_prepared_launch_can_be_used_once() {
    let mut map: Vec<PreparedLaunch> = Vec::new();
    keep_prepared(&mut map, prepared("a", NOW), NOW);
    keep_prepared(&mut map, prepared("b", NOW), NOW);
    keep_prepared(&mut map, prepared("a", NOW), NOW);
    assert_eq!(map.len(), 2);
    assert_eq!(consume_prepared_launch(&mut map, "a", NOW).ok().unwrap().id, "a");
    let again = consume_prepared_launch(&mut map, "a", NOW).err().unwrap();
    assert_eq!(
        again.message(),
        "Prepared launch 已被使用或已过期，请刷新预览"
    );
    cancel_prepared(&mut map, "b", NOW);
    assert!(map.is_empty());
}

#[test]
fn a_prepared_launch_goes_stale_after_half_an_hour() {
    let mut map = vec![
        prepared("late", "2026-09-26T07:30:00.001Z"),
        prepared("old", "2026-09-26T07:30:00Z"),
        prepared("zone", "2026-09-26T09:45:00+02:00"),
        prepared("future", "2026-09-26T09:00:00Z"),
        prepared("unreadable", "yesterday"),
    ];
    prune_stale_prepared_launches(&mut map, NOW);
    let ids: Vec<&str> = map.iter().map(|p| p.id.as_str()).collect();
    assert_eq!(ids, vec!["late", "zone", "future"]);
}

// ---- Cards ----

#[test]
fn the_later_of_two_times_is_taken() {
    let a = some("2026-01-01T00:00:00Z");
    let b = some("2026-01-01T02:00:00+03:00");
    assert_eq!(later_ts(&a, &b), a, "an hour earlier in another zone");
    assert_eq!(later_ts(&None, &b), b);
    assert_eq!(later_ts(&a, &None), a);
    assert_eq!(later_ts(&None, &None), None);
    let text = some("zzz");
    assert_eq!(later_ts(&a, &text), text, "what is no time is ordered as text");
}

fn row(id: &str, updated: &str, active: Option<&str>) -> CardRow {
    CardRow {
        workstream: workstream(id, updated),
        session_count: 1,
        latest_session: Some(LatestSessionInfo {
            id: "s".to_string(),
            agent: "codex".to_string(),
        }),
        session_activity: active.map(|a| a.to_string()),
        items_activity: None,
        path_count: 1,
        primary: Some(PrimaryPath {
            project_id: "p".to_string(),
            canonical_path: "/repo".to_string(),
        }),
        current_state: None,
        goal: None,
    }
}

#[test]
fn cards_come_by_their_last_activity() {
    let rows = vec![
        row("unreadable", "never", None),
        row("renamed", "2026-01-03T00:00:00Z", Some("2026-01-01T00:00:00Z")),
        row("worked", "2026-01-01T00:00:00Z", Some("2026-01-02T00:00:00Z")),
        row("new", "2026-01-04T00:00:00Z", None),
        row("same", "2026-01-04T01:00:00+01:00", None),
    ];
    let projects = vec![
        ProjectName {
            id: "p".to_string(),
            name: "first".to_string(),
        },
        ProjectName {
            id: "p".to_string(),
            name: "second".to_string(),
        },
    ];
    let cards = workstream_cards(&rows, &projects);
    let ids: Vec<&str> = cards.iter().map(|c| c.workstream.id.as_str()).collect();
    assert_eq!(ids, vec!["new", "same", "worked", "renamed", "unreadable"]);
    assert_eq!(cards[0].last_activity_at, None);
    assert_eq!(cards[0].project_name.as_deref(), Some("second"));
    assert_eq!(cards[0].primary_path.as_deref(), Some("/repo"));
}

// ---- Context items ----

#[test]
fn an_item_needs_a_title() {
    let mut args = NewItemArgs {
        workstream_id: "w".to_string(),
        kind: "goal".to_string(),
        title: "  ship it ".to_string(),
        content: "text".to_string(),
    };
    let new = add_context_item(&args).ok().unwrap();
    assert_eq!(new.title, "ship it");
    assert_eq!(new.authority, "user_explicit");
    args.title = " \n".to_string();
    assert!(add_context_item(&args).is_err());
}

#[test]
fn a_change_says_that_it_was_made_by_hand() {
    let mut store = Store::new();
    store.items.push(item("i", "w", "goal", "active"));
    let args = EditItemArgs {
        item_id: "i".to_string(),
        title: " new ".to_string(),
        content: "c".to_string(),
    };
    assert!(edit_context_item(&mut store, &args, NOW).is_ok());
    assert_eq!(store.items.len(), 1);
    let row = &store.items[0];
    assert_eq!(row.item.authority, "user_edit");
    assert_eq!(row.item.updated_at, NOW);
    assert_eq!(row.item.current_revision_id.as_deref(), Some(row.revision.id.as_str()));
    assert_eq!(row.item.status, "active");
    let rev = &row.revision;
    assert_eq!(rev.id.len(), 36);
    assert_eq!(rev.item_id, "i");
    assert_eq!(rev.title, "new");
    assert_eq!(rev.source_type.as_deref(), Some("user_edit"));
    let provenance = rev.metadata.get("provenance").unwrap();
    assert_eq!(provenance.text_at("authority"), Some("user_edit"));
    assert!(matches!(provenance.get("source_ref"), Some(Json::Null)));
    let missing = EditItemArgs {
        item_id: "x".to_string(),
        title: String::new(),
        content: String::new(),
    };
    let e = edit_context_item(&mut store, &missing, NOW).err().unwrap();
    assert_eq!(e.message(), "条目不存在");
}

#[test]
fn the_context_of_a_workstream_is_put_together() {
    let mut store = Store::new();
    store.workstreams.push(workstream("w", NOW));
    store.items.push(item("d", "w", "decision", "active"));
    store.items.push(item("g", "w", "goal", "active"));
    store.items.push(item("gone", "w", "goal", "deleted"));
    store.items.push(item("elsewhere", "v", "goal", "active"));
    let mut owned = session("s");
    owned.owner_workstream_id = some("w");
    let mut trashed = session("t");
    trashed.owner_workstream_id = some("w");
    trashed.trashed_at = some(NOW);
    store.sessions.push(owned);
    store.sessions.push(trashed);
    store.conflicts.push(ContextConflict {
        id: "c1".to_string(),
        workstream_id: "w".to_string(),
        open: true,
    });
    store.conflicts.push(ContextConflict {
        id: "c2".to_string(),
        workstream_id: "w".to_string(),
        open: false,
    });
    let around = || Surroundings {
        project_name: some("p"),
        conflict_cases: Vec::new(),
        relations: Vec::new(),
        recent_changes: Vec::new(),
    };
    let kinds = vec!["goal".to_string(), "decision".to_string()];
    let c = get_workstream_context(&store, "w", &kinds, around()).ok().unwrap();
    let core: Vec<&str> = c.core.iter().map(|s| s.item_id.as_str()).collect();
    assert_eq!(core, vec!["g", "d"]);
    assert_eq!(c.items.len(), 3);
    assert_eq!(c.sessions.len(), 1);
    assert_eq!(c.conflicts.len(), 1);
    let e = get_workstream_context(&store, "x", &kinds, around()).err().unwrap();
    assert_eq!(e.message(), "Workstream 不存在");
}

#[test]
fn a_session_in_the_trash_is_left_alone() {
    let mut store = Store::new();
    store.sessions.push(session("s"));
    let mut t = session("t");
    t.trashed_at = some(NOW);
    store.sessions.push(t);
    assert!(sync_session(&store, "s").is_ok());
    assert_eq!(
        sync_session(&store, "t").err().unwrap().message(),
        "会话已在回收站，无法同步；请先恢复会话"
    );
    assert_eq!(
        sync_session(&store, "x").err().unwrap().message(),
        "Session 不存在"
    );
    assert!(resolve_launch_intent(&store, true, "s").is_ok());
    assert_eq!(
        resolve_launch_intent(&store, false, "s").err().unwrap().message(),
        "LaunchIntent 不存在"
    );
    assert_eq!(
        resolve_launch_intent(&store, true, "t").err().unwrap().message(),
        "会话已在回收站，无法关联启动记录"
    );
    assert_eq!(
        resolve_launch_intent(&store, true, "x").err().unwrap().message(),
        "Session 不存在"
    );
}

// ---- Session detail ----

fn facts(root: Option<SourceAvailability>) -> SessionFacts {
    SessionFacts {
        members: Vec::new(),
        stats: SessionMemberStats {
            tool_call_count: Some(1),
            tool_error_count: None,
            compaction_count: None,
            side_activity_count: None,
        },
        processed_message_sequence: 2,
        root_source: root,
        workspace_paths: vec![path("other", "/other", "q"), path("wp", "/repo", "p")],
        projects: vec![project("q", "Other"), project("p", "Repo")],
    }
}

fn path(id: &str, canonical_path: &str, project_id: &str) -> WorkspacePath {
    WorkspacePath {
        id: id.to_string(),
        canonical_path: canonical_path.to_string(),
        exists: true,
        project_id: project_id.to_string(),
    }
}

fn project(id: &str, name: &str) -> Project {
    Project {
        id: id.to_string(),
        name: name.to_string(),
        description: String::new(),
        archived: false,
        git_id: None,
        name_customized: false,
        created_at: NOW.to_string(),
        updated_at: NOW.to_string(),
    }
}

#[test]
fn a_session_is_resumed_or_deleted_by_its_source() {
    let mut store = Store::new();
    let mut s = session("s");
    s.owner_workstream_id = some("w");
    s.forked_from_session_id = some("t");
    store.sessions.push(s);
    let mut t = session("t");
    t.trashed_at = some(NOW);
    store.sessions.push(t);
    store.workstreams.push(workstream("w", NOW));
    for i in 0..600 {
        store.messages.push(SessionMessage {
            id: format!("m{i}"),
            session_id: "s".to_string(),
            source_message_id: None,
            sequence: i,
            ts: None,
            role: SessionMessageRole::User,
            content: String::new(),
        });
    }
    let d = get_session_detail(&store, "s", facts(Some(SourceAvailability::Present)))
        .ok()
        .unwrap();
    assert!(d.can_resume);
    assert!(!d.can_permanently_delete);
    assert_eq!(d.messages.len(), 500);
    assert_eq!(d.owner_workstream.unwrap().id, "w");
    assert_eq!(d.forked_from.unwrap().id, "t");
    assert!(d.workspace_path.is_none());
    assert_eq!(d.processed_message_sequence, 2);

    let d = get_session_detail(&store, "t", facts(Some(SourceAvailability::Missing)))
        .ok()
        .unwrap();
    assert!(!d.can_resume);
    assert!(d.can_permanently_delete);

    let d = get_session_detail(&store, "t", facts(None)).ok().unwrap();
    assert_eq!(d.root_source_status, SourceAvailability::Unavailable);
    assert!(!d.can_resume);
    assert!(!d.can_permanently_delete);

    let e = get_session_detail(&store, "x", facts(None)).err().unwrap();
    assert_eq!(e.message(), "Session 不存在");
}

#[test]
fn a_session_is_shown_in_the_directory_it_refers_to() {
    let mut store = Store::new();
    for (id, path) in [("a", Some("wp")), ("b", Some("gone")), ("c", None)] {
        let mut s = session(id);
        s.workspace_path_id = path.map(|p| p.to_string());
        store.sessions.push(s);
    }
    let shown = |id: &str, facts: SessionFacts| {
        get_session_detail(&store, id, facts).ok().unwrap().workspace_path
    };
    let d = shown("a", facts(None)).unwrap();
    assert_eq!(d.id, "wp");
    assert_eq!(d.canonical_path, "/repo");
    assert!(d.exists);
    assert_eq!(d.project_id, "p");
    assert_eq!(d.project_name, "Repo");
    assert!(shown("b", facts(None)).is_none());
    assert!(shown("c", facts(None)).is_none());

    let mut unnamed = facts(None);
    unnamed.projects.pop();
    assert_eq!(shown("a", unnamed).unwrap().project_name, "");
}

#[test]
fn setting_an_owner_writes_nothing_else() {
    let mut store = Store::new();
    for id in ["a", "b"] {
        let mut s = session(id);
        s.owner_workstream_id = some("v");
        s.workspace_path_id = some("wp");
        s.cwd = some("/repo");
        store.sessions.push(s);
    }
    store.workstreams.push(workstream("w", NOW));
    let s = set_session_owner_workstream(&mut store, "b", some("w")).ok().unwrap();
    assert_eq!(s.id, "b");
    assert_eq!(s.owner_workstream_id, some("w"));
    assert_eq!(s.workspace_path_id, some("wp"));
    assert_eq!(s.cwd, some("/repo"));
    assert_eq!(store.sessions[0].owner_workstream_id, some("v"));
    assert_eq!(store.sessions[1].owner_workstream_id, some("w"));
    assert_eq!(store.sessions.len(), 2);
    assert_eq!(store.workstreams[0].updated_at, NOW);
    let own = store.sessions_for_workstream("w");
    assert_eq!(own.len(), 1);
    assert_eq!(own[0].id, "b");

    let s = set_session_owner_workstream(&mut store, "b", None).ok().unwrap();
    assert_eq!(s.owner_workstream_id, None);
    assert!(store.sessions_for_workstream("w").is_empty());

    let e = set_session_owner_workstream(&mut store, "x", None).err().unwrap();
    assert_eq!(e.message(), "Session 不存在");
}

// ---- Home, projects, sources ----

#[test]
fn the_settings_show_the_home_that_is_running() {
    let home = RunningHome {
        root: "/h".to_string(),
        default_workspace: "/h/w".to_string(),
        db_path: "/h/db".to_string(),
    };
    let moved = Some(BootstrapPointer {
        current_home: some("/h"),
        pending_home: some("/n"),
    });
    let s = get_workspace_settings(&home, &moved, false, &some("/old/db"));
    assert_eq!(s.db_path, "/old/db");
    assert!(s.restart_required);
    assert_eq!(s.pending_home.as_deref(), Some("/n"));
    assert_eq!(s.home_source, HomeSource::Bootstrap);
    assert_eq!(
        get_workspace_settings(&home, &moved, true, &None).home_source,
        HomeSource::ExplicitEnv
    );
    let plain = get_workspace_settings(&home, &None, true, &None);
    assert_eq!(plain.home_source, HomeSource::DefaultHome);
    assert!(!plain.restart_required);
    assert_eq!(plain.db_path, "/h/db");
    assert_eq!(set_noending_home(" /n ").ok().as_deref(), Some("/n"));
    assert_eq!(
        set_noending_home(" ").err().unwrap().message(),
        "NoEnding Home 路径不能为空"
    );
}

#[test]
fn a_project_keeps_the_name_that_a_person_gave_it() {
    let p = create_project(" a ", " d ", NOW).ok().unwrap();
    assert_eq!(p.name, "a");
    assert_eq!(p.description, "d");
    assert!(p.name_customized);
    assert_eq!(p.id.len(), 36);
    let r = rename_project(&p, " b ", "later").ok().unwrap();
    assert_eq!(r.name, "b");
    assert_eq!(r.id, p.id);
    assert_eq!(r.created_at, p.created_at);
    assert_eq!(r.updated_at, "later");
    assert!(create_project("", "", NOW).is_err());
    assert!(rename_project(&p, " ", NOW).is_err());
    assert_eq!(update_project(r, "even later").updated_at, "even later");
}

#[test]
fn a_source_is_added_for_an_agent_and_a_directory() {
    let s = add_ingest_source("codex", "~/x", "/home/x", true).ok().unwrap();
    assert_eq!(s.agent, Agent::Codex);
    assert_eq!(s.path, "/home/x");
    assert!(s.enabled);
    let fails = [
        (add_ingest_source("x", "~/x", "/home/x", true), "未知 Agent"),
        (add_ingest_source("codex", " ", "", true), "数据源路径不能为空"),
        (
            add_ingest_source("codex", "~/x", "/home/x", false),
            "目录不存在: /home/x",
        ),
    ];
    for (r, message) in fails {
        assert_eq!(r.err().unwrap().message(), message);
    }
}

#[test]
fn one_reading_at_a_time() {
    let mut state = AppState {
        db: Store::new(),
        sync_in_progress: false,
        workspace_refresh_in_progress: false,
        prepared_launches: Vec::new(),
    };
    assert!(state.begin_sync().is_ok());
    assert_eq!(
        state.begin_sync().err().unwrap().message(),
        "已有同步任务在进行中，请等待完成"
    );
    state.end_sync();
    assert!(state.begin_sync().is_ok());
    assert_eq!(recent_paths_limit(None), 8);
    assert_eq!(recent_paths_limit(Some(0)), 1);
    assert_eq!(recent_paths_limit(Some(70)), 50);
}
