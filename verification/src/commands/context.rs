//! What people do to the context of a workstream, and what they see of it.
use crate::context::views::{core_of, resolve_core_context, ContextSection};
use crate::error::{other, AppError, Fault};
use crate::json::{named_trees, object_tree, Json, Tree};
use crate::store::{
    all_items_of, item_place, items_of, open_conflicts_of, session_in, sessions_of, workstream_in,
    ContextConflict, ContextItem, ContextItemRevision, ItemRow, Session, Store, Workstream,
};
use crate::text::{blank, is_blank, trim, trimmed};
use crate::time::random_id;
use vstd::prelude::*;

verus! {

/// An item that somebody adds.
pub struct NewItemArgs {
    pub workstream_id: String,
    pub kind: String,
    pub title: String,
    pub content: String,
}

/// An item that somebody changes.
pub struct EditItemArgs {
    pub item_id: String,
    pub title: String,
    pub content: String,
}

/// How somebody settles a contradiction.
pub struct ResolveConflictWithEditArgs {
    pub conflict_id: String,
    pub status: String,
    pub resolution: Option<String>,
    pub edit: Option<EditItemArgs>,
}

/// An item that is to be stored.
pub struct NewItem {
    pub workstream_id: String,
    pub kind: String,
    pub title: String,
    pub content: String,
    pub authority: String,
    pub source_type: String,
    pub created_by: String,
}

/// Refuses a text of nothing but white space.
pub fn ensure_not_empty(what: &str, text: &str) -> (r: Result<(), AppError>)
    ensures
        r is Ok <==> !blank(text@),
        r matches Err(e) ==> e.deep_view() == Fault::Other(what@ + "不能为空"@),
{
    if is_blank(text) {
        let mut message: String = what.to_owned();
        message.append("不能为空");
        Err(AppError::Other(message))
    } else {
        Ok(())
    }
}

/// The item to store when somebody adds one: it has a title, and is explicitly theirs.
pub fn add_context_item(args: &NewItemArgs) -> (r: Result<NewItem, AppError>)
    ensures
        match r {
            Ok(i) => !blank(args.title@) && i.workstream_id == args.workstream_id && i.kind
                == args.kind && i.title@ == trimmed(args.title@) && i.content == args.content
                && i.authority@ == "user_explicit"@ && i.source_type@ == "user_edit"@
                && i.created_by@ == "user"@,
            Err(e) => blank(args.title@) && e.deep_view() == Fault::Other(
                "条目标题"@ + "不能为空"@,
            ),
        },
{
    match ensure_not_empty("条目标题", args.title.as_str()) {
        Err(e) => {
            return Err(e);
        },
        Ok(()) => {},
    }
    Ok(
        NewItem {
            workstream_id: args.workstream_id.clone(),
            kind: args.kind.clone(),
            title: trim(args.title.as_str()),
            content: args.content.clone(),
            authority: "user_explicit".to_owned(),
            source_type: "user_edit".to_owned(),
            created_by: "user".to_owned(),
        },
    )
}

/// Who made a change by hand, and how.
pub open spec fn by_a_person() -> Seq<(Seq<char>, Tree)> {
    seq![
        ("actor"@, Tree::Text("user"@)),
        ("authority"@, Tree::Text("user_edit"@)),
        ("source_ref"@, Tree::Null),
        ("source_type"@, Tree::Text("user_edit"@)),
    ]
}

/// Where a change by hand says that it comes from.
pub open spec fn by_hand() -> Tree {
    Tree::Object(seq![("provenance"@, Tree::Object(by_a_person()))])
}

/// Whether a revision is what a change by hand makes of an item.
pub open spec fn is_edited(
    rev: ContextItemRevision,
    item_id: Seq<char>,
    args: EditItemArgs,
    now: Seq<char>,
) -> bool {
    &&& rev.item_id@ == item_id
    &&& rev.title@ == trimmed(args.title@)
    &&& rev.content == args.content
    &&& rev.metadata.tree() == by_hand()
    &&& rev.source_type.deep_view() == Some("user_edit"@)
    &&& rev.source_ref is None
    &&& rev.sync_run_id is None
    &&& rev.created_at@ == now
}

/// The revision with an id that a change by hand makes of an item.
pub fn edited_revision(item_id: &str, args: &EditItemArgs, id: String, now: &str) -> (r:
    ContextItemRevision)
    ensures
        r.id == id,
        is_edited(r, item_id@, *args, now@),
{
    let fields: Vec<(String, Json)> = vec![
        ("actor".to_owned(), Json::Text("user".to_owned())),
        ("authority".to_owned(), Json::Text("user_edit".to_owned())),
        ("source_ref".to_owned(), Json::Null),
        ("source_type".to_owned(), Json::Text("user_edit".to_owned())),
    ];
    proof {
        object_tree(fields);
        assert(named_trees(fields@) =~= by_a_person());
    }
    let outer: Vec<(String, Json)> = vec![("provenance".to_owned(), Json::Object(fields))];
    proof {
        object_tree(outer);
        assert(named_trees(outer@) =~= seq![("provenance"@, Tree::Object(by_a_person()))]);
    }
    let metadata = Json::Object(outer);
    ContextItemRevision {
        id,
        item_id: item_id.to_owned(),
        title: trim(args.title.as_str()),
        content: args.content.clone(),
        metadata,
        source_type: Some("user_edit".to_owned()),
        source_ref: None,
        sync_run_id: None,
        created_at: now.to_owned(),
    }
}

/// Whether a row is what a change by hand makes of it: the revision is the item's head, and the
/// item has a person's authority.
pub open spec fn is_edit_of(
    after: ItemRow,
    before: ItemRow,
    args: EditItemArgs,
    now: Seq<char>,
) -> bool {
    &&& is_edited(after.revision, before.item.id@, args, now)
    &&& after.item.current_revision_id.deep_view() == Some(after.revision.id@)
    &&& after.item.authority@ == "user_edit"@
    &&& after.item.updated_at@ == now
    &&& after.item == (ContextItem {
        current_revision_id: after.item.current_revision_id,
        authority: after.item.authority,
        updated_at: after.item.updated_at,
        ..before.item
    })
}

/// Whether the rows are those before, with the first item of an id changed by hand.
pub open spec fn edited(before: Store, after: Store, args: EditItemArgs, now: Seq<char>) -> bool {
    &&& item_place(before.items@, args.item_id@) matches Some(i) && {
        &&& is_edit_of(after.items@[i], before.items@[i], args, now)
        &&& after.items@ == before.items@.update(i, after.items@[i])
    }
    &&& after == (Store { items: after.items, ..before })
}

/// Changes an item by hand, with the id that the new revision gets.
pub fn edit_item(store: &mut Store, args: &EditItemArgs, id: String, now: &str) -> (r: Result<
    (),
    AppError,
>)
    ensures
        match (item_place(old(store).items@, args.item_id@), r) {
            (Some(i), Ok(_)) => edited(*old(store), *final(store), *args, now@)
                && final(store).items@[i].revision.id == id,
            (None, Err(e)) => e.deep_view() == Fault::Other("条目不存在"@) && *final(store)
                == *old(store),
            _ => false,
        },
{
    let i: usize = match store.item_position(args.item_id.as_str()) {
        Some(i) => i,
        None => {
            return Err(other("条目不存在"));
        },
    };
    let ghost all = store.items@;
    let ghost before = all[i as int];
    proof {
        place_is_a_row(all, args.item_id@);
    }
    let mut row = store.items.remove(i);
    let revision = edited_revision(row.item.id.as_str(), args, id, now);
    row.item.current_revision_id = Some(revision.id.clone());
    row.item.authority = "user_edit".to_owned();
    row.item.updated_at = now.to_owned();
    row.revision = revision;
    assert(is_edit_of(row, before, *args, now@));
    store.items.insert(i, row);
    assert(store.items@ =~= all.update(i as int, row));
    Ok(())
}

proof fn place_is_a_row(rows: Seq<ItemRow>, id: Seq<char>)
    ensures
        item_place(rows, id) matches Some(i) ==> 0 <= i < rows.len() && rows[i].item.id@ == id,
    decreases rows.len(),
{
    if rows.len() > 0 {
        place_is_a_row(rows.drop_first(), id);
    }
}

/// Changes an item by hand. The new revision gets a fresh id.
pub fn edit_context_item(store: &mut Store, args: &EditItemArgs, now: &str) -> (r: Result<
    (),
    AppError,
>)
    ensures
        match (item_place(old(store).items@, args.item_id@), r) {
            (Some(i), Ok(_)) => edited(*old(store), *final(store), *args, now@)
                && final(store).items@[i].revision.id@.len() == 36,
            (None, Err(e)) => e.deep_view() == Fault::Other("条目不存在"@) && *final(store)
                == *old(store),
            _ => false,
        },
{
    edit_item(store, args, random_id(), now)
}

// ---------------------------------------------------------------------------
// What is shown
// ---------------------------------------------------------------------------

/// The context of a workstream as it is shown.
pub struct WorkstreamContext<'a> {
    pub workstream: &'a Workstream,
    pub project_name: Option<String>,
    pub core: Vec<ContextSection>,
    pub items: Vec<&'a ItemRow>,
    /// The sessions that belong to the workstream and are not in the trash.
    pub sessions: Vec<&'a Session>,
    pub conflicts: Vec<&'a ContextConflict>,
    pub conflict_cases: Vec<Json>,
    pub relations: Vec<Json>,
    pub recent_changes: Vec<Json>,
}

/// What else is shown of a workstream, as it is stored.
pub struct Surroundings {
    pub project_name: Option<String>,
    pub conflict_cases: Vec<Json>,
    pub relations: Vec<Json>,
    pub recent_changes: Vec<Json>,
}

/// The context of a workstream as it is shown. `kinds` are the kinds of items at its heart.
pub fn get_workstream_context<'a>(
    store: &'a Store,
    workstream_id: &str,
    kinds: &Vec<String>,
    around: Surroundings,
) -> (r: Result<WorkstreamContext<'a>, AppError>)
    ensures
        match (workstream_in(store.workstreams@, workstream_id@), r) {
            (Some(w), Ok(c)) => {
                &&& *c.workstream == w
                &&& c.project_name == around.project_name
                &&& c.core@ == core_of(items_of(store.items@, workstream_id@), kinds@)
                &&& c.items@.map_values(|s: &ItemRow| *s) == all_items_of(
                    store.items@,
                    workstream_id@,
                )
                &&& c.sessions@.map_values(|s: &Session| *s) == sessions_of(
                    store.sessions@,
                    workstream_id@,
                )
                &&& c.conflicts@.map_values(|s: &ContextConflict| *s) == open_conflicts_of(
                    store.conflicts@,
                    workstream_id@,
                )
                &&& c.conflict_cases == around.conflict_cases
                &&& c.relations == around.relations
                &&& c.recent_changes == around.recent_changes
            },
            (None, Err(e)) => e.deep_view() == Fault::Other("Workstream 不存在"@),
            _ => false,
        },
{
    let workstream = match store.get_workstream(workstream_id) {
        Some(w) => w,
        None => {
            return Err(other("Workstream 不存在"));
        },
    };
    Ok(
        WorkstreamContext {
            workstream,
            project_name: around.project_name,
            core: resolve_core_context(store, workstream_id, kinds),
            items: store.all_items_for_workstream(workstream_id),
            sessions: store.sessions_for_workstream(workstream_id),
            conflicts: store.open_conflicts_for_workstream(workstream_id),
            conflict_cases: around.conflict_cases,
            relations: around.relations,
            recent_changes: around.recent_changes,
        },
    )
}

// ---------------------------------------------------------------------------
// Sessions that may be written to
// ---------------------------------------------------------------------------

/// The session that is to be read again: one in the trash is refused.
pub fn sync_session<'a>(store: &'a Store, session_id: &str) -> (r: Result<&'a Session, AppError>)
    ensures
        match (session_in(store.sessions@, session_id@), r) {
            (Some(s), Ok(x)) => *x == s && s.trashed_at is None,
            (Some(s), Err(e)) => s.trashed_at is Some && e.deep_view() == Fault::Other(
                "会话已在回收站，无法同步；请先恢复会话"@,
            ),
            (None, Err(e)) => e.deep_view() == Fault::Other("Session 不存在"@),
            _ => false,
        },
{
    match store.get_session(session_id) {
        Some(s) => if s.is_trashed() {
            Err(other("会话已在回收站，无法同步；请先恢复会话"))
        } else {
            Ok(s)
        },
        None => Err(other("Session 不存在")),
    }
}

/// The session that somebody says a launch led to: one in the trash is refused. `is_known` says
/// whether the launch is known.
pub fn resolve_launch_intent<'a>(store: &'a Store, is_known: bool, session_id: &str) -> (r: Result<
    &'a Session,
    AppError,
>)
    ensures
        match (session_in(store.sessions@, session_id@), r) {
            (Some(s), Ok(x)) => is_known && *x == s && s.trashed_at is None,
            (Some(s), Err(e)) => (!is_known || s.trashed_at is Some) && e.deep_view()
                == Fault::Other(
                if is_known {
                    "会话已在回收站，无法关联启动记录"@
                } else {
                    "LaunchIntent 不存在"@
                },
            ),
            (None, Err(e)) => e.deep_view() == Fault::Other(
                if is_known {
                    "Session 不存在"@
                } else {
                    "LaunchIntent 不存在"@
                },
            ),
            _ => false,
        },
{
    if !is_known {
        return Err(other("LaunchIntent 不存在"));
    }
    match store.get_session(session_id) {
        Some(s) => if s.is_trashed() {
            Err(other("会话已在回收站，无法关联启动记录"))
        } else {
            Ok(s)
        },
        None => Err(other("Session 不存在")),
    }
}

} // verus!
