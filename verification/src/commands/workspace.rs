//! Where everything is kept.
use crate::domain::copy_text;
use crate::error::{other, AppError, Fault};
use crate::text::{blank, is_blank, trim, trimmed};
use vstd::prelude::*;

verus! {

/// How the place where everything is kept was found.
#[derive(Clone, Copy, Debug, PartialEq, Eq, Structural)]
pub enum HomeSource {
    ExplicitEnv,
    Bootstrap,
    DefaultHome,
}

/// What is remembered of the place from one start to the next.
pub struct BootstrapPointer {
    pub current_home: Option<String>,
    pub pending_home: Option<String>,
}

/// The place as the program runs on it.
pub struct RunningHome {
    pub root: String,
    pub default_workspace: String,
    pub db_path: String,
}

/// What the settings show of the place.
pub struct WorkspaceSettings {
    pub noending_home: String,
    pub default_workspace: String,
    pub pending_home: Option<String>,
    pub restart_required: bool,
    pub db_path: String,
    pub home_source: HomeSource,
}

/// How the place was found. `pointer` is what is remembered, where anything can be.
pub open spec fn source_of(pointer: Option<BootstrapPointer>, is_overridden: bool) -> HomeSource {
    match pointer {
        Some(p) => if is_overridden {
            HomeSource::ExplicitEnv
        } else if p.current_home is Some {
            HomeSource::Bootstrap
        } else {
            HomeSource::DefaultHome
        },
        None => HomeSource::DefaultHome,
    }
}

/// The place that the next start is to move to.
pub open spec fn pending_in(pointer: Option<BootstrapPointer>) -> Option<String> {
    match pointer {
        Some(p) => p.pending_home,
        None => None,
    }
}

/// What the settings show: the place as the program runs on it, and where the next start is to
/// move to. `open_path` is the database that is written to, which after a failed move is not the
/// one of the place.
pub fn get_workspace_settings(
    home: &RunningHome,
    pointer: &Option<BootstrapPointer>,
    is_overridden: bool,
    open_path: &Option<String>,
) -> (r: WorkspaceSettings)
    ensures
        r.noending_home == home.root,
        r.default_workspace == home.default_workspace,
        r.pending_home == pending_in(*pointer),
        r.restart_required == (pending_in(*pointer) is Some),
        r.db_path == (match *open_path {
            Some(p) => p,
            None => home.db_path,
        }),
        r.home_source == source_of(*pointer, is_overridden),
{
    let pending_home: Option<String> = match pointer {
        Some(p) => copy_text(&p.pending_home),
        None => None,
    };
    WorkspaceSettings {
        noending_home: home.root.clone(),
        default_workspace: home.default_workspace.clone(),
        restart_required: pending_home.is_some(),
        pending_home,
        db_path: match open_path {
            Some(p) => p.clone(),
            None => home.db_path.clone(),
        },
        home_source: match pointer {
            Some(p) => if is_overridden {
                HomeSource::ExplicitEnv
            } else if p.current_home.is_some() {
                HomeSource::Bootstrap
            } else {
                HomeSource::DefaultHome
            },
            None => HomeSource::DefaultHome,
        },
    }
}

/// The place that the next start is to move to, when somebody asks for a move.
pub fn set_noending_home(new_home: &str) -> (r: Result<String, AppError>)
    ensures
        match r {
            Ok(p) => !blank(new_home@) && p@ == trimmed(new_home@),
            Err(e) => blank(new_home@) && e.deep_view() == Fault::Other(
                "NoEnding Home 路径不能为空"@,
            ),
        },
{
    if is_blank(new_home) {
        return Err(other("NoEnding Home 路径不能为空"));
    }
    Ok(trim(new_home))
}

} // verus!
