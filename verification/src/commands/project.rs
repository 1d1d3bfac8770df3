//! Projects.
use crate::commands::context::ensure_not_empty;
use crate::domain::copy_text;
use crate::error::{AppError, Fault};
use crate::text::{blank, trim, trimmed};
use crate::time::random_id;
use vstd::prelude::*;

verus! {

/// Directories that belong together.
pub struct Project {
    pub id: String,
    pub name: String,
    pub description: String,
    pub archived: bool,
    pub git_id: Option<String>,
    /// Whether a person chose the name. It is kept then.
    pub name_customized: bool,
    pub created_at: String,
    pub updated_at: String,
}

/// A project with a name that somebody gave it.
pub fn create_project(name: &str, description: &str, now: &str) -> (r: Result<Project, AppError>)
    ensures
        match r {
            Ok(p) => !blank(name@) && p.id@.len() == 36 && p.name@ == trimmed(name@)
                && p.description@ == trimmed(description@) && !p.archived && p.git_id is None
                && p.name_customized && p.created_at@ == now@ && p.updated_at@ == now@,
            Err(e) => blank(name@) && e.deep_view() == Fault::Other("项目名称"@ + "不能为空"@),
        },
{
    match ensure_not_empty("项目名称", name) {
        Err(e) => {
            return Err(e);
        },
        Ok(()) => {},
    }
    Ok(
        Project {
            id: random_id(),
            name: trim(name),
            description: trim(description),
            archived: false,
            git_id: None,
            name_customized: true,
            created_at: now.to_owned(),
            updated_at: now.to_owned(),
        },
    )
}

/// The project under a new name; nothing else about it changes but when it was changed.
pub fn rename_project(project: &Project, name: &str, now: &str) -> (r: Result<Project, AppError>)
    ensures
        match r {
            Ok(p) => !blank(name@) && p.name@ == trimmed(name@) && p.name_customized && p.id
                == project.id && p.description == project.description && p.archived
                == project.archived && p.git_id == project.git_id && p.created_at
                == project.created_at && p.updated_at@ == now@,
            Err(e) => blank(name@) && e.deep_view() == Fault::Other("项目名称"@ + "不能为空"@),
        },
{
    match ensure_not_empty("项目名称", name) {
        Err(e) => {
            return Err(e);
        },
        Ok(()) => {},
    }
    Ok(
        Project {
            id: project.id.clone(),
            name: trim(name),
            description: project.description.clone(),
            archived: project.archived,
            git_id: copy_text(&project.git_id),
            name_customized: true,
            created_at: project.created_at.clone(),
            updated_at: now.to_owned(),
        },
    )
}

/// The project as somebody changed it, with the time of the change.
pub fn update_project(project: Project, now: &str) -> (r: Project)
    ensures
        r.updated_at@ == now@,
        r.id == project.id,
        r.name == project.name,
        r.description == project.description,
        r.archived == project.archived,
        r.git_id == project.git_id,
        r.name_customized == project.name_customized,
        r.created_at == project.created_at,
{
    let mut p = project;
    p.updated_at = now.to_owned();
    p
}

} // verus!
