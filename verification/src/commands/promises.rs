//! What the commands promise, told from what is stored and what is asked for.
use crate::commands::agents::{
    agent_named, default_agent, first_found, installation_in, is_status_of, without_agent,
    AgentRuntimeSettings, AgentStatus,
};
use crate::commands::context::{edited, EditItemArgs};
use crate::commands::ingestion::{kept, with_task, IngestionCoordinator, Scope};
use crate::commands::launches::{
    fresh_launches, is_fresh, launch_in, left_after, without_launch, PreparedLaunch,
};
use crate::commands::project::Project;
use crate::commands::session_workspace::{
    deletable, directory_of, is_shown_path, origin_of, owner_of, path_in, project_name_in,
    resumable, root_status, under_owner, SessionWorkspacePath, WorkspacePath, SHOWN_MESSAGES,
};
use crate::commands::workspace::{pending_in, source_of, BootstrapPointer, HomeSource};
use crate::commands::workstream::{
    active_at, card, cards_of, later, more_recent, placed, project_named, CardRow, ProjectName,
    WorkstreamCardView,
};
use crate::agent_runtime::Overrides;
use crate::domain::{Agent, AgentInstallation, SourceAvailability};
use crate::json::Tree;
use crate::store::{
    a_choice_holds_what_is_wanted, item_place, session_in, the_first_item_is_found, workstream_in,
    Session, Store,
};
use crate::text::{before, trimmed};
use crate::time::{instant_of, seconds_between};
use vstd::prelude::*;

verus! {

// ---------------------------------------------------------------------------
// Changes by hand
// ---------------------------------------------------------------------------

/// Row `i` is the first item of an id.
pub open spec fn first_item(store: Store, id: Seq<char>, i: int) -> bool {
    &&& 0 <= i < store.items@.len()
    &&& store.items@[i].item.id@ == id
    &&& forall|k: int| 0 <= k < i ==> (#[trigger] store.items@[k]).item.id@ != id
}

/// A change by hand makes the item say what was asked for, as a person's own edit, now. The item
/// stays the item that it was: its id, its workstream, its kind and the rest. No other item and
/// nothing else that is stored is touched.
pub proof fn an_edit_does_what_was_asked(
    was: Store,
    is: Store,
    args: EditItemArgs,
    now: Seq<char>,
    i: int,
)
    requires
        edited(was, is, args, now),
        first_item(was, args.item_id@, i),
    ensures
        is.items@.len() == was.items@.len(),
        forall|k: int| 0 <= k < was.items@.len() && k != i ==> #[trigger] is.items@[k]
            == was.items@[k],
        ({
            let rev = is.items@[i].revision;
            let item = is.items@[i].item;
            let old_item = was.items@[i].item;
            &&& rev.title@ == trimmed(args.title@)
            &&& rev.content@ == args.content@
            &&& rev.item_id@ == args.item_id@
            &&& rev.created_at@ == now
            &&& rev.source_type matches Some(t) && t@ == "user_edit"@
            &&& rev.source_ref is None
            &&& rev.sync_run_id is None
            &&& rev.metadata.tree() == Tree::Object(
                seq![
                    (
                        "provenance"@,
                        Tree::Object(
                            seq![
                                ("actor"@, Tree::Text("user"@)),
                                ("authority"@, Tree::Text("user_edit"@)),
                                ("source_ref"@, Tree::Null),
                                ("source_type"@, Tree::Text("user_edit"@)),
                            ],
                        ),
                    ),
                ],
            )
            &&& item.current_revision_id matches Some(id) && id@ == rev.id@
            &&& item.authority@ == "user_edit"@
            &&& item.updated_at@ == now
            &&& item.id == old_item.id
            &&& item.workstream_id == old_item.workstream_id
            &&& item.kind == old_item.kind
            &&& item.status == old_item.status
            &&& item.created_at == old_item.created_at
        }),
        is.workstreams == was.workstreams,
        is.sessions == was.sessions,
        is.messages == was.messages,
        is.conflicts == was.conflicts,
{
    the_first_item_is_found(was.items@, args.item_id@);
    let k = item_place(was.items@, args.item_id@)->0;
    assert(k == i);
}

// ---------------------------------------------------------------------------
// Cards
// ---------------------------------------------------------------------------

/// A card shows what is stored of its workstream; its project is the one of its main directory.
pub proof fn a_card_shows_its_workstream(row: CardRow, projects: Seq<ProjectName>)
    ensures
        ({
            let c = card(row, projects);
            &&& c.workstream == row.workstream
            &&& c.current_state == row.current_state
            &&& c.goal == row.goal
            &&& c.session_count == row.session_count
            &&& c.latest_session == row.latest_session
            &&& c.path_count == row.path_count
            &&& c.last_activity_at == later(row.session_activity, row.items_activity)
            &&& row.primary is None ==> c.project_id is None && c.project_name is None
                && c.primary_path is None
            &&& row.primary matches Some(p) ==> {
                &&& c.project_id == Some(p.project_id)
                &&& c.primary_path == Some(p.canonical_path)
                &&& c.project_name == project_named(projects, p.project_id@)
            }
        }),
{
}

/// A project goes by the last name that is known for its id.
pub proof fn a_project_goes_by_its_name(
    projects: Seq<ProjectName>,
    p: ProjectName,
    id: Seq<char>,
)
    ensures
        project_named(Seq::empty(), id) is None,
        p.id@ == id ==> project_named(projects.push(p), id) == Some(p.name),
        p.id@ != id ==> project_named(projects.push(p), id) == project_named(projects, id),
{
    assert(projects.push(p).drop_last() =~= projects);
}

/// Of two times the later one is shown, the first where they are the same; a time that is missing
/// is later than none. What is no time is compared as it is written.
pub proof fn the_later_time_is_shown(a: String, b: String)
    ensures
        later(None, None) is None,
        later(Some(a), None) == Some(a),
        later(None, Some(b)) == Some(b),
        instant_of(a@) matches Some(x) ==> (instant_of(b@) matches Some(y) ==> {
            &&& y.0 > x.0 ==> later(Some(a), Some(b)) == Some(b)
            &&& y.0 == x.0 && y.1 > x.1 ==> later(Some(a), Some(b)) == Some(b)
            &&& y.0 < x.0 ==> later(Some(a), Some(b)) == Some(a)
            &&& y.0 == x.0 && y.1 <= x.1 ==> later(Some(a), Some(b)) == Some(a)
        }),
        instant_of(a@) is None || instant_of(b@) is None ==> later(Some(a), Some(b)) == (if before(
            a@,
            b@,
        ) {
            Some(b)
        } else {
            Some(a)
        }),
{
}

/// Where a card without a time stands in for one: a workstream in which no work was done counts
/// from its own change; a card with a time comes before one without.
pub proof fn how_recent_a_card_is(c: WorkstreamCardView, x: (i64, u32), y: (i64, u32))
    ensures
        c.last_activity_at is None ==> active_at(c) == instant_of(c.workstream.updated_at@),
        c.last_activity_at matches Some(t) ==> active_at(c) == instant_of(t@),
        more_recent(Some(x), None),
        !more_recent(None, Some(x)),
        !more_recent(None, None),
        more_recent(Some(x), Some(y)) <==> x.0 > y.0 || (x.0 == y.0 && x.1 > y.1),
{
}

/// Where a card goes among others: behind all that are as recent, in front of all that are less.
pub open spec fn goes_at(cards: Seq<WorkstreamCardView>, c: WorkstreamCardView, p: int) -> bool {
    &&& 0 <= p <= cards.len()
    &&& p > 0 ==> !more_recent(active_at(c), active_at(cards[p - 1]))
    &&& forall|k: int|
        p <= k < cards.len() ==> more_recent(active_at(c), active_at(#[trigger] cards[k]))
}

proof fn a_card_goes_somewhere(cards: Seq<WorkstreamCardView>, c: WorkstreamCardView)
    ensures
        exists|p: int| #[trigger] goes_at(cards, c, p) && placed(cards, c) == cards.insert(p, c),
    decreases cards.len(),
{
    if cards.len() > 0 && more_recent(active_at(c), active_at(cards.last())) {
        let front = cards.drop_last();
        a_card_goes_somewhere(front, c);
        let p = choose|p: int| #[trigger] goes_at(front, c, p) && placed(front, c) == front.insert(
            p,
            c,
        );
        assert forall|k: int| p <= k < cards.len() implies more_recent(
            active_at(c),
            active_at(#[trigger] cards[k]),
        ) by {
            if k < front.len() {
                assert(front[k] == cards[k]);
            }
        }
        if p > 0 {
            assert(front[p - 1] == cards[p - 1]);
        }
        assert(goes_at(cards, c, p));
        assert(placed(cards, c) =~= cards.insert(p, c));
    } else {
        assert(goes_at(cards, c, cards.len() as int));
        assert(cards.push(c) =~= cards.insert(cards.len() as int, c));
    }
}

/// One more workstream is one more card; the others keep their order, and of equally recent ones
/// the one that was first stays first.
pub proof fn one_more_card(rows: Seq<CardRow>, row: CardRow, projects: Seq<ProjectName>)
    ensures
        cards_of(Seq::empty(), projects) == Seq::<WorkstreamCardView>::empty(),
        exists|p: int|
            #[trigger] goes_at(cards_of(rows, projects), card(row, projects), p) && cards_of(
                rows.push(row),
                projects,
            ) == cards_of(rows, projects).insert(p, card(row, projects)),
{
    assert(rows.push(row).drop_last() =~= rows);
    a_card_goes_somewhere(cards_of(rows, projects), card(row, projects));
}

// ---------------------------------------------------------------------------
// Prepared launches
// ---------------------------------------------------------------------------

/// A launch can be used for half an hour after it was prepared, and not where either time cannot
/// be read.
pub proof fn a_launch_lasts_half_an_hour(prepared_at: Seq<char>, now: Seq<char>)
    ensures
        is_fresh(prepared_at, now) <==> instant_of(prepared_at) is Some && instant_of(now) is Some
            && seconds_between(prepared_at, now) < 30 * 60,
{
}

/// Pruning drops exactly the launches that can no longer be used, and taking one out drops exactly
/// the launches of its id; what stays keeps its order.
pub proof fn only_what_is_due_goes(
    rows: Seq<PreparedLaunch>,
    more: Seq<PreparedLaunch>,
    p: PreparedLaunch,
    id: Seq<char>,
    now: Seq<char>,
)
    ensures
        fresh_launches(rows, now).contains(p) <==> rows.contains(p) && is_fresh(p.prepared_at@, now),
        without_launch(rows, id).contains(p) <==> rows.contains(p) && p.id@ != id,
        left_after(rows, id, now).contains(p) <==> rows.contains(p) && p.id@ != id && is_fresh(
            p.prepared_at@,
            now,
        ),
        fresh_launches(rows + more, now) == fresh_launches(rows, now) + fresh_launches(more, now),
        without_launch(rows + more, id) == without_launch(rows, id) + without_launch(more, id),
        left_after(rows + more, id, now) == left_after(rows, id, now) + left_after(more, id, now),
        fresh_launches(rows, now).len() <= rows.len(),
        without_launch(rows, id).len() <= rows.len(),
{
    broadcast use {
        a_choice_holds_what_is_wanted,
        Seq::filter_distributes_over_add,
        Seq::lemma_filter_len,
    };

}

/// Row `i` is the first launch of an id.
pub open spec fn first_launch(rows: Seq<PreparedLaunch>, id: Seq<char>, i: int) -> bool {
    &&& 0 <= i < rows.len()
    &&& rows[i].id@ == id
    &&& forall|k: int| 0 <= k < i ==> (#[trigger] rows[k]).id@ != id
}

/// A launch that was prepared under an id is the one that is used under it.
pub proof fn the_launch_of_its_id_is_used(rows: Seq<PreparedLaunch>, id: Seq<char>)
    ensures
        forall|i: int| #[trigger] first_launch(rows, id, i) ==> launch_in(rows, id) == Some(rows[i]),
        (forall|i: int| 0 <= i < rows.len() ==> (#[trigger] rows[i]).id@ != id) ==> launch_in(
            rows,
            id,
        ) is None,
    decreases rows.len(),
{
    if rows.len() > 0 {
        let rest = rows.drop_first();
        the_launch_of_its_id_is_used(rest, id);
        assert forall|i: int| #[trigger] first_launch(rows, id, i) implies launch_in(rows, id)
            == Some(rows[i]) by {
            if i > 0 {
                assert(rows[0].id@ != id);
                assert forall|k: int| 0 <= k < i - 1 implies (#[trigger] rest[k]).id@ != id by {
                    assert(rest[k] == rows[k + 1]);
                }
                assert(rest[i - 1] == rows[i]);
                assert(first_launch(rest, id, i - 1));
            }
        }
        if forall|i: int| 0 <= i < rows.len() ==> (#[trigger] rows[i]).id@ != id {
            assert(rows[0].id@ != id);
            assert forall|i: int| 0 <= i < rest.len() implies (#[trigger] rest[i]).id@ != id by {
                assert(rest[i] == rows[i + 1]);
            }
        }
    }
}

/// A launch that was kept can be used, for as long as it is fresh.
pub proof fn what_was_kept_can_be_used(
    rows: Seq<PreparedLaunch>,
    prepared: PreparedLaunch,
    now: Seq<char>,
    then: Seq<char>,
)
    requires
        is_fresh(prepared.prepared_at@, then),
    ensures
        launch_in(
            fresh_launches(left_after(rows, prepared.id@, now).push(prepared), then),
            prepared.id@,
        ) == Some(prepared),
{
    broadcast use {a_choice_holds_what_is_wanted, Seq::filter_distributes_over_add};

    let left = left_after(rows, prepared.id@, now);
    let all = left.push(prepared);
    assert(all =~= left + seq![prepared]);
    reveal_with_fuel(Seq::filter, 2);
    assert(seq![prepared].drop_last() =~= Seq::<PreparedLaunch>::empty());
    assert(fresh_launches(seq![prepared], then) =~= seq![prepared]);
    let fresh = fresh_launches(left, then);
    assert(fresh_launches(all, then) == fresh + seq![prepared]);
    let i = fresh.len() as int;
    assert forall|k: int| 0 <= k < i implies (#[trigger] (fresh + seq![prepared])[k]).id@
        != prepared.id@ by {
        let p = (fresh + seq![prepared])[k];
        assert(p == fresh[k]);
        assert(fresh.contains(p));
        assert(left.contains(p));
    }
    assert(first_launch(fresh + seq![prepared], prepared.id@, i));
    the_launch_of_its_id_is_used(fresh + seq![prepared], prepared.id@);
}

// ---------------------------------------------------------------------------
// Agents
// ---------------------------------------------------------------------------

/// Row `i` is the first installation of an agent.
pub open spec fn first_installed(rows: Seq<AgentInstallation>, agent: Agent, i: int) -> bool {
    &&& 0 <= i < rows.len()
    &&& rows[i].agent == agent
    &&& forall|k: int| 0 <= k < i ==> (#[trigger] rows[k]).agent != agent
}

/// An agent is where its first installation is.
pub proof fn an_agent_is_where_it_was_found(rows: Seq<AgentInstallation>, agent: Agent)
    ensures
        forall|i: int|
            #[trigger] first_installed(rows, agent, i) ==> installation_in(rows, agent) == Some(
                rows[i],
            ),
        (forall|i: int| 0 <= i < rows.len() ==> (#[trigger] rows[i]).agent != agent)
            ==> installation_in(rows, agent) is None,
    decreases rows.len(),
{
    if rows.len() > 0 {
        let rest = rows.drop_first();
        an_agent_is_where_it_was_found(rest, agent);
        assert forall|i: int| #[trigger] first_installed(rows, agent, i) implies installation_in(
            rows,
            agent,
        ) == Some(rows[i]) by {
            if i > 0 {
                assert(rows[0].agent != agent);
                assert forall|k: int| 0 <= k < i - 1 implies (#[trigger] rest[k]).agent
                    != agent by {
                    assert(rest[k] == rows[k + 1]);
                }
                assert(rest[i - 1] == rows[i]);
                assert(first_installed(rest, agent, i - 1));
            }
        }
        if forall|i: int| 0 <= i < rows.len() ==> (#[trigger] rows[i]).agent != agent {
            assert(rows[0].agent != agent);
            assert forall|i: int| 0 <= i < rest.len() implies (#[trigger] rest[i]).agent
                != agent by {
                assert(rest[i] == rows[i + 1]);
            }
        }
    }
}

/// Forgetting an agent forgets its installations and no others.
pub proof fn only_the_agent_is_forgotten(
    rows: Seq<AgentInstallation>,
    more: Seq<AgentInstallation>,
    agent: Agent,
    i: AgentInstallation,
)
    ensures
        without_agent(rows, agent).contains(i) <==> rows.contains(i) && i.agent != agent,
        without_agent(rows + more, agent) == without_agent(rows, agent) + without_agent(
            more,
            agent,
        ),
{
    broadcast use {a_choice_holds_what_is_wanted, Seq::filter_distributes_over_add};

}

/// Agent `i` is the first of some that was found.
pub open spec fn first_there(agents: Seq<Agent>, rows: Seq<AgentInstallation>, i: int) -> bool {
    &&& 0 <= i < agents.len()
    &&& installation_in(rows, agents[i]) is Some
    &&& forall|k: int| 0 <= k < i ==> installation_in(rows, #[trigger] agents[k]) is None
}

/// Where nothing was chosen, the first agent that was found is started; where none was found, none
/// is.
pub proof fn the_first_agent_there_is_started(agents: Seq<Agent>, rows: Seq<AgentInstallation>)
    ensures
        forall|i: int|
            #[trigger] first_there(agents, rows, i) ==> first_found(agents, rows) == Some(agents[i]),
        (forall|i: int| 0 <= i < agents.len() ==> installation_in(rows, #[trigger] agents[i]) is None)
            ==> first_found(agents, rows) is None,
        default_agent(None, rows) == first_found(Agent::every(), rows),
        forall|name: Seq<char>|
            (forall|a: Agent| #[trigger] a.name() != name) ==> #[trigger] default_agent(
                Some(name),
                rows,
            ) == first_found(Agent::every(), rows),
    decreases agents.len(),
{
    if agents.len() > 0 {
        let rest = agents.drop_first();
        the_first_agent_there_is_started(rest, rows);
        assert forall|i: int| #[trigger] first_there(agents, rows, i) implies first_found(
            agents,
            rows,
        ) == Some(agents[i]) by {
            if i > 0 {
                assert(installation_in(rows, agents[0]) is None);
                assert forall|k: int| 0 <= k < i - 1 implies installation_in(
                    rows,
                    #[trigger] rest[k],
                ) is None by {
                    assert(rest[k] == agents[k + 1]);
                }
                assert(rest[i - 1] == agents[i]);
                assert(first_there(rest, rows, i - 1));
            }
        }
        if forall|i: int|
            0 <= i < agents.len() ==> installation_in(rows, #[trigger] agents[i]) is None {
            assert(installation_in(rows, agents[0]) is None);
            assert forall|i: int| 0 <= i < rest.len() implies installation_in(
                rows,
                #[trigger] rest[i],
            ) is None by {
                assert(rest[i] == agents[i + 1]);
            }
        }
    }
}

/// A name is of the agent that goes by it, and of none where no agent does.
pub proof fn a_name_is_of_one_agent(name: Seq<char>, agent: Agent)
    ensures
        agent_named(name) == Some(agent) ==> agent.name() == name,
        agent.name() == name ==> agent_named(name) is Some,
        agent_named(name) is None ==> agent.name() != name,
{
}

/// What is shown of an agent is where it was found, and nothing where it was not.
pub proof fn a_status_tells_where_an_agent_is(
    s: AgentStatus,
    t: AgentRuntimeSettings,
    agent: Agent,
    installation: Option<AgentInstallation>,
    overrides: Overrides,
)
    ensures
        is_status_of(s, agent, installation) ==> {
            &&& s.agent == agent
            &&& s.name@ == agent.shown()
            &&& s.detected <==> installation is Some
            &&& installation matches Some(i) ==> s.executable == Some(i.executable_path)
                && s.version == i.version
            &&& installation is None ==> s.executable is None && s.version is None
        },
        t.shows(agent, installation, overrides) ==> {
            &&& t.agent == agent
            &&& t.detected <==> installation is Some
            &&& installation matches Some(i) ==> t.executable == Some(i.executable_path)
                && t.version == i.version
            &&& installation is None ==> t.executable is None && t.version is None
            &&& t.overrides.deep_view() == overrides
            &&& t.capabilities == crate::agent_runtime::capabilities::capabilities(agent)
            &&& t.models@.len() == 0
            &&& t.model_source@ == "not_loaded"@
            &&& t.warnings@.len() == 0
        },
{
}

// ---------------------------------------------------------------------------
// The queue
// ---------------------------------------------------------------------------

/// A task that is not queued comes last, and all that was queued stays in front of it; only a full
/// reading drops those that cover a part.
pub proof fn a_task_comes_last(queue: Seq<Scope>, s: Scope, other: Scope)
    ensures
        queue.contains(s) ==> with_task(queue, s) == queue,
        !queue.contains(s) && !(s is ReconcileAll) ==> with_task(queue, s) == queue.push(s),
        !queue.contains(s) && s is ReconcileAll ==> with_task(queue, s) == kept(queue).push(s),
        kept(queue).contains(other) <==> queue.contains(other) && (other is ReconcileAll
            || other is ReingestSource),
{
    broadcast use a_choice_holds_what_is_wanted;

}

/// The tasks that a full reading leaves keep their order.
pub proof fn what_is_kept_keeps_its_order(queue: Seq<Scope>, more: Seq<Scope>)
    ensures
        kept(queue + more) == kept(queue) + kept(more),
{
    broadcast use Seq::filter_distributes_over_add;

}

/// A task goes by what it covers.
pub proof fn a_task_goes_by_what_it_covers(id: Seq<char>)
    ensures
        Scope::ReconcileAll.name() == "reconcile_all"@,
        Scope::ReconcileSource(id).name() == "reconcile_source:"@ + id,
        Scope::RefreshSession(id).name() == "refresh_session:"@ + id,
        Scope::ReingestSource(id).name() == "reingest_source:"@ + id,
{
}

/// A full reading stays fresh for five minutes.
pub proof fn a_reading_stays_fresh(c: IngestionCoordinator, now: u64)
    ensures
        c.last_success is None ==> c.stale(now),
        c.last_success matches Some(at) ==> (c.stale(now) <==> now - at >= 5 * 60 * 1000),
{
}

// ---------------------------------------------------------------------------
// Sessions
// ---------------------------------------------------------------------------

/// What can be done with a session: one whose source is there and that is not in the trash can be
/// taken up again, one in the trash whose source is gone can be deleted for good.
pub proof fn what_can_be_done_with_a_session(trashed: bool, root: Option<SourceAvailability>)
    ensures
        root matches Some(s) ==> root_status(root) == s,
        root is None ==> root_status(root) == SourceAvailability::Unavailable,
        resumable(trashed, root_status(root)) <==> !trashed && root == Some(
            SourceAvailability::Present,
        ),
        deletable(trashed, root_status(root)) <==> trashed && root == Some(
            SourceAvailability::Missing,
        ),
        SHOWN_MESSAGES == 500,
{
}

/// Row `i` is the first directory of an id.
pub open spec fn first_path(rows: Seq<WorkspacePath>, id: Seq<char>, i: int) -> bool {
    &&& 0 <= i < rows.len()
    &&& rows[i].id@ == id
    &&& forall|k: int| 0 <= k < i ==> (#[trigger] rows[k]).id@ != id
}

/// A directory is the first of its id.
pub proof fn the_first_directory_is_found(rows: Seq<WorkspacePath>, id: Seq<char>)
    ensures
        forall|i: int| #[trigger] first_path(rows, id, i) ==> path_in(rows, id) == Some(rows[i]),
        (forall|i: int| 0 <= i < rows.len() ==> (#[trigger] rows[i]).id@ != id) ==> path_in(
            rows,
            id,
        ) is None,
    decreases rows.len(),
{
    if rows.len() > 0 {
        let rest = rows.drop_first();
        the_first_directory_is_found(rest, id);
        assert forall|i: int| #[trigger] first_path(rows, id, i) implies path_in(rows, id) == Some(
            rows[i],
        ) by {
            if i > 0 {
                assert(rows[0].id@ != id);
                assert forall|k: int| 0 <= k < i - 1 implies (#[trigger] rest[k]).id@ != id by {
                    assert(rest[k] == rows[k + 1]);
                }
                assert(rest[i - 1] == rows[i]);
                assert(first_path(rest, id, i - 1));
            }
        }
        if forall|i: int| 0 <= i < rows.len() ==> (#[trigger] rows[i]).id@ != id {
            assert(rows[0].id@ != id);
            assert forall|i: int| 0 <= i < rest.len() implies (#[trigger] rest[i]).id@ != id by {
                assert(rest[i] == rows[i + 1]);
            }
        }
    }
}

/// Row `i` is the first project of an id.
pub open spec fn first_project(rows: Seq<Project>, id: Seq<char>, i: int) -> bool {
    &&& 0 <= i < rows.len()
    &&& rows[i].id@ == id
    &&& forall|k: int| 0 <= k < i ==> (#[trigger] rows[k]).id@ != id
}

/// A project goes by the name of the first one of its id, and by none where there is no such one.
pub proof fn the_first_project_gives_the_name(rows: Seq<Project>, id: Seq<char>)
    ensures
        forall|i: int|
            #[trigger] first_project(rows, id, i) ==> project_name_in(rows, id) == rows[i].name@,
        (forall|i: int| 0 <= i < rows.len() ==> (#[trigger] rows[i]).id@ != id) ==> project_name_in(
            rows,
            id,
        ).len() == 0,
    decreases rows.len(),
{
    if rows.len() > 0 {
        let rest = rows.drop_first();
        the_first_project_gives_the_name(rest, id);
        assert forall|i: int| #[trigger] first_project(rows, id, i) implies project_name_in(
            rows,
            id,
        ) == rows[i].name@ by {
            if i > 0 {
                assert(rows[0].id@ != id);
                assert forall|k: int| 0 <= k < i - 1 implies (#[trigger] rest[k]).id@ != id by {
                    assert(rest[k] == rows[k + 1]);
                }
                assert(rest[i - 1] == rows[i]);
                assert(first_project(rest, id, i - 1));
            }
        }
        if forall|i: int| 0 <= i < rows.len() ==> (#[trigger] rows[i]).id@ != id {
            assert(rows[0].id@ != id);
            assert forall|i: int| 0 <= i < rest.len() implies (#[trigger] rest[i]).id@ != id by {
                assert(rest[i] == rows[i + 1]);
            }
        }
    }
}

/// The directory that is shown of a session is the one it refers to, under its project's name.
pub proof fn a_session_shows_its_directory(
    shown: Option<SessionWorkspacePath>,
    s: Session,
    paths: Seq<WorkspacePath>,
    projects: Seq<Project>,
)
    requires
        is_shown_path(shown, directory_of(paths, s), projects),
    ensures
        s.workspace_path_id is None ==> shown is None,
        s.workspace_path_id matches Some(id) ==> {
            &&& shown is Some <==> path_in(paths, id@) is Some
            &&& shown matches Some(d) ==> (path_in(paths, id@) matches Some(p) ==> {
                &&& d.id == p.id
                &&& d.canonical_path == p.canonical_path
                &&& d.exists == p.exists
                &&& d.project_id == p.project_id
                &&& d.project_name@ == project_name_in(projects, p.project_id@)
            })
        },
{
}

/// A session shows the workstream that owns it and the session that it was forked from, each by
/// the id that the session holds.
pub proof fn a_session_shows_where_it_belongs(store: Store, s: Session)
    ensures
        s.owner_workstream_id is None ==> owner_of(store, s) is None,
        s.owner_workstream_id matches Some(id) ==> owner_of(store, s) == workstream_in(
            store.workstreams@,
            id@,
        ),
        s.forked_from_session_id is None ==> origin_of(store, s) is None,
        s.forked_from_session_id matches Some(id) ==> origin_of(store, s) == session_in(
            store.sessions@,
            id@,
        ),
{
}

/// A session under another owner is the same session in all else.
pub proof fn another_owner_changes_nothing_else(s: Session, owner: Option<String>)
    ensures
        under_owner(s, owner).owner_workstream_id == owner,
        under_owner(s, owner).id == s.id,
        under_owner(s, owner).agent == s.agent,
        under_owner(s, owner).trashed_at == s.trashed_at,
        under_owner(s, owner).workspace_path_id == s.workspace_path_id,
        under_owner(s, owner).forked_from_session_id == s.forked_from_session_id,
{
}

// ---------------------------------------------------------------------------
// Where everything is kept
// ---------------------------------------------------------------------------

/// The environment counts before what is remembered, and that before the default; where nothing
/// can be remembered the default counts. A move waits where one is remembered.
pub proof fn how_the_home_was_found(p: BootstrapPointer, is_overridden: bool)
    ensures
        source_of(None, is_overridden) == HomeSource::DefaultHome,
        source_of(Some(p), true) == HomeSource::ExplicitEnv,
        p.current_home is Some ==> source_of(Some(p), false) == HomeSource::Bootstrap,
        p.current_home is None ==> source_of(Some(p), false) == HomeSource::DefaultHome,
        pending_in(None) is None,
        pending_in(Some(p)) == p.pending_home,
{
}

/// A queue is in order where no task waits twice, and where a worker runs if any task waits.
pub proof fn when_a_queue_is_in_order(c: IngestionCoordinator)
    ensures
        c.well_formed() ==> {
            &&& forall|i: int, j: int|
                0 <= i < j < c.tasks().len() ==> #[trigger] c.tasks()[i] != #[trigger] c.tasks()[j]
            &&& c.tasks().len() > 0 ==> c.running
        },
        c.tasks().len() == 0 ==> c.well_formed(),
        c.tasks().len() == c.queue@.len(),
        forall|i: int| 0 <= i < c.queue@.len() ==> #[trigger] c.tasks()[i] == c.queue@[i].deep_view(),
{
}

} // verus!
