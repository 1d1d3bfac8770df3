//! What the user interface asks for.
pub mod agents;
pub mod context;
pub mod ingestion;
pub mod launches;
pub mod project;
pub mod promises;
pub mod session_workspace;
pub mod workspace;
pub mod workstream;

pub use agents::{
    agent_of, default_agent_of, record_installation_probe, AgentRuntimeSettings, AgentStatus,
};
pub use context::{EditItemArgs, NewItemArgs, ResolveConflictWithEditArgs, WorkstreamContext};
pub use launches::{
    consume_prepared_launch, prune_stale_prepared_launches, PreparedLaunch,
    PREPARED_LAUNCH_TTL_SECS,
};
pub use workstream::workstream_cards;

use crate::domain::Agent;
use crate::error::{other, AppError, Fault};
use crate::store::Store;
use crate::text::{blank, is_blank};
use agents::agent_named;
use vstd::prelude::*;

verus! {

/// What the program holds while it runs.
pub struct AppState {
    pub db: Store,
    /// Whether the sources are being read in the background.
    pub sync_in_progress: bool,
    /// Whether the directories are being looked through.
    pub workspace_refresh_in_progress: bool,
    /// The launches that wait for a confirmation.
    pub prepared_launches: Vec<PreparedLaunch>,
}

impl AppState {
    /// Begins to read the sources in the background, unless that is going on.
    pub fn begin_sync(&mut self) -> (r: Result<(), AppError>)
        ensures
            r is Err <==> old(self).sync_in_progress,
            r matches Err(e) ==> e.deep_view() == Fault::Other(
                "已有同步任务在进行中，请等待完成"@,
            ),
            final(self).sync_in_progress,
            final(self).db == old(self).db,
            final(self).workspace_refresh_in_progress == old(self).workspace_refresh_in_progress,
            final(self).prepared_launches == old(self).prepared_launches,
    {
        if self.sync_in_progress {
            return Err(other("已有同步任务在进行中，请等待完成"));
        }
        self.sync_in_progress = true;
        Ok(())
    }

    /// Ends the reading of the sources, well or not.
    pub fn end_sync(&mut self)
        ensures
            !final(self).sync_in_progress,
            final(self).db == old(self).db,
            final(self).workspace_refresh_in_progress == old(self).workspace_refresh_in_progress,
            final(self).prepared_launches == old(self).prepared_launches,
    {
        self.sync_in_progress = false;
    }
}

/// A directory in which the sessions of an agent are looked for.
pub struct IngestSource {
    pub id: String,
    pub agent: Agent,
    pub path: String,
    pub enabled: bool,
}

/// A source as it is shown, with whether its directory is there now.
pub struct IngestSourceView {
    pub source: IngestSource,
    pub exists: bool,
}

/// A source that is to be added.
pub struct NewIngestSource {
    pub agent: Agent,
    pub path: String,
    pub enabled: bool,
}

/// The source to store when somebody adds a directory for an agent. `expanded` is the path
/// without a leading tilde, and `is_dir` says whether it is a directory.
pub fn add_ingest_source(agent: &str, path: &str, expanded: &str, is_dir: bool) -> (r: Result<
    NewIngestSource,
    AppError,
>)
    ensures
        match r {
            Ok(s) => agent_named(agent@) == Some(s.agent) && !blank(path@) && is_dir && s.path@
                == expanded@ && s.enabled,
            Err(e) => e.deep_view() == Fault::Other(
                if agent_named(agent@) is None {
                    "未知 Agent"@
                } else if blank(path@) {
                    "数据源路径"@ + "不能为空"@
                } else {
                    "目录不存在: "@ + expanded@
                },
            ) && (agent_named(agent@) is None || blank(path@) || !is_dir),
        },
{
    let a: Agent = match agent_of(agent) {
        Ok(a) => a,
        Err(_) => {
            return Err(other("未知 Agent"));
        },
    };
    if is_blank(path) {
        let mut message: String = "数据源路径".to_owned();
        message.append("不能为空");
        return Err(AppError::Other(message));
    }
    if !is_dir {
        let mut message: String = "目录不存在: ".to_owned();
        message.append(expanded);
        return Err(AppError::Other(message));
    }
    Ok(NewIngestSource { agent: a, path: expanded.to_owned(), enabled: true })
}

/// How many directories are offered: eight where nobody says, at least one and at most fifty.
pub fn recent_paths_limit(limit: Option<usize>) -> (r: usize)
    ensures
        r == (match limit {
            None => 8,
            Some(n) => if n < 1 {
                1
            } else if n > 50 {
                50
            } else {
                n as int
            },
        }),
{
    match limit {
        None => 8,
        Some(n) => if n < 1 {
            1
        } else if n > 50 {
            50
        } else {
            n
        },
    }
}

} // verus!
