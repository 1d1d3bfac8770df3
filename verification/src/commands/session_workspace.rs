//! A session with all that is shown of it, and the workstream that owns it.
use crate::commands::project::Project;
use crate::domain::{Agent, SessionMemberRelation, SourceAvailability};
use crate::error::{other, AppError, Fault};
use crate::json::Json;
use crate::store::{
    a_session_stands_at_its_place, at_most, messages_of, owned_by, session_in, session_place,
    workstream_in, Session, SessionMessage, Store, Workstream,
};
use crate::text::same;
use vstd::prelude::*;

verus! {

/// How many messages are shown of a session.
pub const SHOWN_MESSAGES: usize = 500;

/// A part of the execution graph of a session.
pub struct SessionMember {
    pub id: String,
    pub session_id: String,
    pub agent: Agent,
    pub source_member_id: String,
    pub relation: SessionMemberRelation,
    pub parent_source_member_id: Option<String>,
    pub source_kind: String,
    pub source_path: String,
    pub cwd: Option<String>,
    pub started_at: Option<String>,
    pub last_activity_at: Option<String>,
    pub metadata: Json,
}

/// The counters of a member.
pub struct SessionMemberStats {
    pub tool_call_count: Option<i64>,
    pub tool_error_count: Option<i64>,
    pub compaction_count: Option<i64>,
    pub side_activity_count: Option<i64>,
}

/// A member as it is shown.
pub struct SessionMemberView {
    pub member: SessionMember,
    pub stats: Option<SessionMemberStats>,
}

/// The directory of a session and the project behind it.
pub struct SessionWorkspacePath {
    pub id: String,
    pub canonical_path: String,
    pub exists: bool,
    pub project_id: String,
    pub project_name: String,
}

/// A directory that is known.
pub struct WorkspacePath {
    pub id: String,
    pub canonical_path: String,
    pub exists: bool,
    pub project_id: String,
}

/// A session with all that is shown of it.
pub struct SessionDetail {
    pub session: Session,
    pub messages: Vec<SessionMessage>,
    pub owner_workstream: Option<Workstream>,
    pub workspace_path: Option<SessionWorkspacePath>,
    pub members: Vec<SessionMemberView>,
    pub stats: SessionMemberStats,
    pub ingested_message_sequence: i64,
    pub processed_message_sequence: i64,
    pub root_source_status: SourceAvailability,
    pub can_resume: bool,
    pub can_permanently_delete: bool,
    pub forked_from: Option<Session>,
}

/// What else is stored of a session, and what was just found of its source.
pub struct SessionFacts {
    pub members: Vec<SessionMemberView>,
    pub stats: SessionMemberStats,
    pub processed_message_sequence: i64,
    /// Whether the root source is there; nothing where there is no root.
    pub root_source: Option<SourceAvailability>,
    /// The directories that are known, and the projects behind them.
    pub workspace_paths: Vec<WorkspacePath>,
    pub projects: Vec<Project>,
}

/// Whether the root source is there; it is not available where there is no root.
pub open spec fn root_status(root: Option<SourceAvailability>) -> SourceAvailability {
    match root {
        Some(s) => s,
        None => SourceAvailability::Unavailable,
    }
}

/// Whether a session can be taken up again: it is not in the trash, and its source is there.
pub open spec fn resumable(trashed: bool, root: SourceAvailability) -> bool {
    !trashed && root == SourceAvailability::Present
}

/// Whether a session can be deleted for good: it is in the trash, and its source is gone.
pub open spec fn deletable(trashed: bool, root: SourceAvailability) -> bool {
    trashed && root == SourceAvailability::Missing
}

/// The first directory with an id.
pub open spec fn path_in(rows: Seq<WorkspacePath>, id: Seq<char>) -> Option<WorkspacePath>
    decreases rows.len(),
{
    if rows.len() == 0 {
        None
    } else if rows[0].id@ == id {
        Some(rows[0])
    } else {
        path_in(rows.drop_first(), id)
    }
}

/// The name of the first project with an id; empty where there is none.
pub open spec fn project_name_in(rows: Seq<Project>, id: Seq<char>) -> Seq<char>
    decreases rows.len(),
{
    if rows.len() == 0 {
        Seq::empty()
    } else if rows[0].id@ == id {
        rows[0].name@
    } else {
        project_name_in(rows.drop_first(), id)
    }
}

/// The directory of a session, where it refers to one and that one is known.
pub open spec fn directory_of(paths: Seq<WorkspacePath>, s: Session) -> Option<WorkspacePath> {
    match s.workspace_path_id {
        Some(id) => path_in(paths, id@),
        None => None,
    }
}

/// A directory as it is shown, under the name of its project.
pub open spec fn is_shown_path(
    shown: Option<SessionWorkspacePath>,
    path: Option<WorkspacePath>,
    projects: Seq<Project>,
) -> bool {
    match (shown, path) {
        (Some(s), Some(p)) => {
            &&& s.id == p.id
            &&& s.canonical_path == p.canonical_path
            &&& s.exists == p.exists
            &&& s.project_id == p.project_id
            &&& s.project_name@ == project_name_in(projects, p.project_id@)
        },
        (None, None) => true,
        _ => false,
    }
}

/// What a session refers to by an id, where it does and it is there.
pub open spec fn owner_of(store: Store, s: Session) -> Option<Workstream> {
    match s.owner_workstream_id {
        Some(id) => workstream_in(store.workstreams@, id@),
        None => None,
    }
}

/// The session that a session was forked from, where it was and that one is there.
pub open spec fn origin_of(store: Store, s: Session) -> Option<Session> {
    match s.forked_from_session_id {
        Some(id) => session_in(store.sessions@, id@),
        None => None,
    }
}

fn first_messages(store: &Store, session_id: &str) -> (r: Vec<SessionMessage>)
    ensures
        r@ == at_most(messages_of(store.messages@, session_id@), SHOWN_MESSAGES as nat),
{
    let ghost all = store.messages@;
    let ghost wanted = |m: SessionMessage| m.session_id@ == session_id@;
    let mut out: Vec<SessionMessage> = Vec::new();
    let mut i: usize = 0;
    proof {
        reveal(Seq::filter);
    }
    assert(all.take(0) =~= Seq::<SessionMessage>::empty());
    assert(out@ =~= all.take(0).filter(wanted));
    while i < store.messages.len()
        invariant
            i <= store.messages@.len(),
            all == store.messages@,
            wanted == (|m: SessionMessage| m.session_id@ == session_id@),
            out@ == at_most(all.take(i as int).filter(wanted), SHOWN_MESSAGES as nat),
        decreases store.messages@.len() - i,
    {
        proof {
            reveal(Seq::filter);
        }
        assert(all.take(i + 1).drop_last() =~= all.take(i as int));
        assert(all.take(i + 1).last() == all[i as int]);
        let ghost so_far = all.take(i as int).filter(wanted);
        if same(store.messages[i].session_id.as_str(), session_id) {
            if out.len() < SHOWN_MESSAGES {
                out.push(store.messages[i].copy());
                assert(out@ =~= so_far.push(all[i as int]));
            } else {
                assert(so_far.push(all[i as int]).take(SHOWN_MESSAGES as int) =~= so_far.take(
                    SHOWN_MESSAGES as int,
                ));
                assert(so_far.len() == SHOWN_MESSAGES ==> so_far.take(SHOWN_MESSAGES as int)
                    =~= so_far);
            }
        }
        i = i + 1;
    }
    assert(all.take(i as int) =~= all);
    out
}

fn find_path<'a>(paths: &'a Vec<WorkspacePath>, id: &str) -> (r: Option<&'a WorkspacePath>)
    ensures
        match r {
            Some(p) => path_in(paths@, id@) == Some(*p),
            None => path_in(paths@, id@) is None,
        },
{
    let ghost all = paths@;
    let mut i: usize = 0;
    assert(all.skip(0) =~= all);
    while i < paths.len()
        invariant
            i <= paths@.len(),
            all == paths@,
            path_in(all, id@) == path_in(all.skip(i as int), id@),
        decreases paths@.len() - i,
    {
        assert(all.skip(i as int)[0] == all[i as int]);
        assert(all.skip(i as int).drop_first() =~= all.skip(i + 1));
        if same(paths[i].id.as_str(), id) {
            return Some(&paths[i]);
        }
        i = i + 1;
    }
    None
}

fn project_name(projects: &Vec<Project>, id: &str) -> (r: String)
    ensures
        r@ == project_name_in(projects@, id@),
{
    let ghost all = projects@;
    let mut i: usize = 0;
    assert(all.skip(0) =~= all);
    while i < projects.len()
        invariant
            i <= projects@.len(),
            all == projects@,
            project_name_in(all, id@) == project_name_in(all.skip(i as int), id@),
        decreases projects@.len() - i,
    {
        assert(all.skip(i as int)[0] == all[i as int]);
        assert(all.skip(i as int).drop_first() =~= all.skip(i + 1));
        if same(projects[i].id.as_str(), id) {
            return projects[i].name.clone();
        }
        i = i + 1;
    }
    proof {
        reveal_strlit("");
    }
    assert(""@ =~= Seq::<char>::empty());
    "".to_owned()
}

fn shown_path(session: &Session, facts: &SessionFacts) -> (r: Option<SessionWorkspacePath>)
    ensures
        is_shown_path(r, directory_of(facts.workspace_paths@, *session), facts.projects@),
{
    match &session.workspace_path_id {
        Some(id) => match find_path(&facts.workspace_paths, id.as_str()) {
            Some(p) => Some(
                SessionWorkspacePath {
                    id: p.id.clone(),
                    canonical_path: p.canonical_path.clone(),
                    exists: p.exists,
                    project_id: p.project_id.clone(),
                    project_name: project_name(&facts.projects, p.project_id.as_str()),
                },
            ),
            None => None,
        },
        None => None,
    }
}

/// A session with all that is shown of it.
pub fn get_session_detail(store: &Store, session_id: &str, facts: SessionFacts) -> (r: Result<
    SessionDetail,
    AppError,
>)
    ensures
        match (session_in(store.sessions@, session_id@), r) {
            (Some(s), Ok(d)) => {
                &&& d.session == s
                &&& d.messages@ == at_most(
                    messages_of(store.messages@, session_id@),
                    SHOWN_MESSAGES as nat,
                )
                &&& d.owner_workstream == owner_of(*store, s)
                &&& is_shown_path(
                    d.workspace_path,
                    directory_of(facts.workspace_paths@, s),
                    facts.projects@,
                )
                &&& d.members == facts.members
                &&& d.stats == facts.stats
                &&& d.ingested_message_sequence == store.reading(session_id@).1
                &&& d.processed_message_sequence == facts.processed_message_sequence
                &&& d.root_source_status == root_status(facts.root_source)
                &&& d.can_resume == resumable(s.trashed_at is Some, d.root_source_status)
                &&& d.can_permanently_delete == deletable(
                    s.trashed_at is Some,
                    d.root_source_status,
                )
                &&& d.forked_from == origin_of(*store, s)
            },
            (None, Err(e)) => e.deep_view() == Fault::Other("Session 不存在"@),
            _ => false,
        },
{
    let session = match store.get_session(session_id) {
        Some(s) => s.copy(),
        None => {
            return Err(other("Session 不存在"));
        },
    };
    let owner_workstream: Option<Workstream> = match &session.owner_workstream_id {
        Some(id) => match store.get_workstream(id.as_str()) {
            Some(w) => Some(w.copy()),
            None => None,
        },
        None => None,
    };
    let forked_from: Option<Session> = match &session.forked_from_session_id {
        Some(id) => match store.get_session(id.as_str()) {
            Some(s) => Some(s.copy()),
            None => None,
        },
        None => None,
    };
    let root_source_status: SourceAvailability = match facts.root_source {
        Some(s) => s,
        None => SourceAvailability::Unavailable,
    };
    let trashed: bool = session.is_trashed();
    let workspace_path: Option<SessionWorkspacePath> = shown_path(&session, &facts);
    Ok(
        SessionDetail {
            messages: first_messages(store, session_id),
            owner_workstream,
            workspace_path,
            members: facts.members,
            stats: facts.stats,
            ingested_message_sequence: store.get_session_ingest_state(
                session_id,
            ).latest_message_seq,
            processed_message_sequence: facts.processed_message_sequence,
            root_source_status,
            can_resume: !trashed && root_source_status == SourceAvailability::Present,
            can_permanently_delete: trashed && root_source_status == SourceAvailability::Missing,
            forked_from,
            session,
        },
    )
}

/// No session can be taken up again and deleted for good at the same time, and one whose source
/// could not be looked at can be neither.
pub proof fn what_can_be_resumed_cannot_be_deleted(trashed: bool, root: SourceAvailability)
    ensures
        !(resumable(trashed, root) && deletable(trashed, root)),
        root == SourceAvailability::Unavailable ==> !resumable(trashed, root) && !deletable(
            trashed,
            root,
        ),
{
}

/// A session under an owner, or under none. Its directory, its project and all else stay.
pub open spec fn under_owner(s: Session, owner: Option<String>) -> Session {
    Session { owner_workstream_id: owner, ..s }
}

/// Sets the workstream that owns a session, or takes it away. Nothing else is written.
pub fn set_session_owner_workstream(
    store: &mut Store,
    session_id: &str,
    workstream_id: Option<String>,
) -> (r: Result<Session, AppError>)
    ensures
        match (session_place(old(store).sessions@, session_id@), r) {
            (Some(i), Ok(s)) => {
                &&& s == under_owner(old(store).sessions@[i], workstream_id)
                &&& final(store).sessions@ == old(store).sessions@.update(i, s)
                &&& *final(store) == (Store { sessions: final(store).sessions, ..*old(store) })
            },
            (None, Err(e)) => e.deep_view() == Fault::Other("Session 不存在"@) && *final(store)
                == *old(store),
            _ => false,
        },
{
    let i: usize = match store.session_position(session_id) {
        Some(i) => i,
        None => {
            return Err(other("Session 不存在"));
        },
    };
    let ghost all = store.sessions@;
    let mut session = store.sessions.remove(i);
    session.owner_workstream_id = workstream_id;
    let shown = session.copy();
    store.sessions.insert(i, session);
    assert(store.sessions@ =~= all.update(i as int, session));
    Ok(shown)
}

/// Setting the owner of a session leaves every other session as it is, and the session itself but
/// for its owner.
pub proof fn an_owner_is_set_alone(
    rows: Seq<Session>,
    id: Seq<char>,
    owner: Option<String>,
    other: Seq<char>,
)
    requires
        session_place(rows, id) is Some,
    ensures
        ({
            let i = session_place(rows, id)->0;
            let after = rows.update(i, under_owner(rows[i], owner));
            session_in(after, other) == (if other == id {
                Some(under_owner(rows[i], owner))
            } else {
                session_in(rows, other)
            })
        }),
    decreases rows.len(),
{
    let i = session_place(rows, id)->0;
    a_session_stands_at_its_place(rows, id);
    let after = rows.update(i, under_owner(rows[i], owner));
    if rows[0].id@ == id {
        assert(after.drop_first() =~= rows.drop_first());
    } else {
        an_owner_is_set_alone(rows.drop_first(), id, owner, other);
        assert(after.drop_first() =~= rows.drop_first().update(
            i - 1,
            under_owner(rows[i], owner),
        ));
    }
}

/// A session has at most one owner, the one that was set last, and setting the former one again
/// undoes it.
pub proof fn a_session_has_one_owner(s: Session, owner: Option<String>, workstream: Seq<char>)
    ensures
        owned_by(under_owner(s, owner), workstream) <==> (owner matches Some(id) && id@
            == workstream),
        under_owner(under_owner(s, owner), s.owner_workstream_id) == s,
{
}

} // verus!
