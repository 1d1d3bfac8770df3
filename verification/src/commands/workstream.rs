//! The cards of workstreams.
use crate::domain::copy_text;
use crate::store::Workstream;
use crate::text::{before, is_before, same};
use crate::time::{instant_of, parse_instant};
use vstd::prelude::*;

verus! {

/// The session that a card continues.
pub struct LatestSessionInfo {
    pub id: String,
    pub agent: String,
}

/// A workstream as its card shows it.
pub struct WorkstreamCardView {
    pub workstream: Workstream,
    pub project_id: Option<String>,
    pub project_name: Option<String>,
    pub current_state: Option<String>,
    pub goal: Option<String>,
    /// When work was last done in it. A change of its name is no work.
    pub last_activity_at: Option<String>,
    pub session_count: i64,
    pub latest_session: Option<LatestSessionInfo>,
    pub path_count: i64,
    pub primary_path: Option<String>,
}

/// The directory that a workstream mainly works in.
pub struct PrimaryPath {
    pub project_id: String,
    pub canonical_path: String,
}

/// What is stored of a workstream that its card shows.
pub struct CardRow {
    pub workstream: Workstream,
    pub session_count: i64,
    pub latest_session: Option<LatestSessionInfo>,
    pub session_activity: Option<String>,
    pub items_activity: Option<String>,
    pub path_count: i64,
    pub primary: Option<PrimaryPath>,
    pub current_state: Option<String>,
    pub goal: Option<String>,
}

/// A project and its name.
pub struct ProjectName {
    pub id: String,
    pub name: String,
}

// ---------------------------------------------------------------------------
// Times
// ---------------------------------------------------------------------------

/// Whether an instant is after another.
pub open spec fn after(a: (i64, u32), b: (i64, u32)) -> bool {
    a.0 > b.0 || (a.0 == b.0 && a.1 > b.1)
}

/// The later of two times. Where one of them is no time, they are taken as texts.
pub open spec fn later(a: Option<String>, b: Option<String>) -> Option<String> {
    match (a, b) {
        (None, _) => b,
        (_, None) => a,
        (Some(x), Some(y)) => match (instant_of(x@), instant_of(y@)) {
            (Some(i), Some(j)) => if after(j, i) {
                b
            } else {
                a
            },
            _ => if before(x@, y@) {
                b
            } else {
                a
            },
        },
    }
}

/// The later of two times.
pub fn later_ts(a: &Option<String>, b: &Option<String>) -> (r: Option<String>)
    ensures
        r == later(*a, *b),
{
    match (a, b) {
        (None, _) => copy_text(b),
        (_, None) => copy_text(a),
        (Some(x), Some(y)) => {
            let second: bool = match (parse_instant(x.as_str()), parse_instant(y.as_str())) {
                (Some(i), Some(j)) => j.0 > i.0 || (j.0 == i.0 && j.1 > i.1),
                _ => is_before(x.as_str(), y.as_str()),
            };
            if second {
                copy_text(b)
            } else {
                copy_text(a)
            }
        },
    }
}

// ---------------------------------------------------------------------------
// Cards
// ---------------------------------------------------------------------------

/// The name of a project; the last one with its id counts.
pub open spec fn project_named(projects: Seq<ProjectName>, id: Seq<char>) -> Option<String>
    decreases projects.len(),
{
    if projects.len() == 0 {
        None
    } else if projects.last().id@ == id {
        Some(projects.last().name)
    } else {
        project_named(projects.drop_last(), id)
    }
}

/// The card of a workstream.
pub open spec fn card(row: CardRow, projects: Seq<ProjectName>) -> WorkstreamCardView {
    WorkstreamCardView {
        workstream: row.workstream,
        project_id: match row.primary {
            Some(p) => Some(p.project_id),
            None => None,
        },
        project_name: match row.primary {
            Some(p) => project_named(projects, p.project_id@),
            None => None,
        },
        current_state: row.current_state,
        goal: row.goal,
        last_activity_at: later(row.session_activity, row.items_activity),
        session_count: row.session_count,
        latest_session: row.latest_session,
        path_count: row.path_count,
        primary_path: match row.primary {
            Some(p) => Some(p.canonical_path),
            None => None,
        },
    }
}

/// When a card counts as active: when work was last done, else when the workstream was last
/// changed; no time where what is written is none.
pub open spec fn active_at(c: WorkstreamCardView) -> Option<(i64, u32)> {
    instant_of(
        match c.last_activity_at {
            Some(t) => t@,
            None => c.workstream.updated_at@,
        },
    )
}

/// Whether a time is later than another; no time is earlier than any.
pub open spec fn more_recent(a: Option<(i64, u32)>, b: Option<(i64, u32)>) -> bool {
    match (a, b) {
        (Some(x), Some(y)) => after(x, y),
        (Some(_), None) => true,
        _ => false,
    }
}

/// A card is put behind the last one that is not less recent.
pub open spec fn placed(cards: Seq<WorkstreamCardView>, c: WorkstreamCardView) -> Seq<
    WorkstreamCardView,
>
    decreases cards.len(),
{
    if cards.len() > 0 && more_recent(active_at(c), active_at(cards.last())) {
        placed(cards.drop_last(), c).push(cards.last())
    } else {
        cards.push(c)
    }
}

/// The cards of workstreams, the most recent first; those that are equally recent stay in their
/// order.
pub open spec fn cards_of(rows: Seq<CardRow>, projects: Seq<ProjectName>) -> Seq<
    WorkstreamCardView,
>
    decreases rows.len(),
{
    if rows.len() == 0 {
        Seq::empty()
    } else {
        placed(cards_of(rows.drop_last(), projects), card(rows.last(), projects))
    }
}

fn find_project(projects: &Vec<ProjectName>, id: &str) -> (r: Option<String>)
    ensures
        r == project_named(projects@, id@),
{
    let mut i: usize = projects.len();
    assert(projects@.take(i as int) =~= projects@);
    while i > 0
        invariant
            i <= projects@.len(),
            project_named(projects@, id@) == project_named(projects@.take(i as int), id@),
        decreases i,
    {
        assert(projects@.take(i as int).drop_last() =~= projects@.take(i - 1));
        assert(projects@.take(i as int).last() == projects@[i - 1]);
        i = i - 1;
        if same(projects[i].id.as_str(), id) {
            return Some(projects[i].name.clone());
        }
    }
    None
}

fn card_of(row: &CardRow, projects: &Vec<ProjectName>) -> (r: WorkstreamCardView)
    ensures
        r == card(*row, projects@),
{
    let (project_id, project_name, primary_path): (
        Option<String>,
        Option<String>,
        Option<String>,
    ) = match &row.primary {
        Some(p) => (
            Some(p.project_id.clone()),
            find_project(projects, p.project_id.as_str()),
            Some(p.canonical_path.clone()),
        ),
        None => (None, None, None),
    };
    WorkstreamCardView {
        workstream: row.workstream.copy(),
        project_id,
        project_name,
        current_state: copy_text(&row.current_state),
        goal: copy_text(&row.goal),
        last_activity_at: later_ts(&row.session_activity, &row.items_activity),
        session_count: row.session_count,
        latest_session: match &row.latest_session {
            Some(l) => Some(LatestSessionInfo { id: l.id.clone(), agent: l.agent.clone() }),
            None => None,
        },
        path_count: row.path_count,
        primary_path,
    }
}

fn activity(c: &WorkstreamCardView) -> (r: Option<(i64, u32)>)
    ensures
        r == active_at(*c),
{
    match &c.last_activity_at {
        Some(t) => parse_instant(t.as_str()),
        None => parse_instant(c.workstream.updated_at.as_str()),
    }
}

fn is_more_recent(a: Option<(i64, u32)>, b: Option<(i64, u32)>) -> (r: bool)
    ensures
        r == more_recent(a, b),
{
    match (a, b) {
        (Some(x), Some(y)) => x.0 > y.0 || (x.0 == y.0 && x.1 > y.1),
        (Some(_), None) => true,
        _ => false,
    }
}

proof fn placed_where(cards: Seq<WorkstreamCardView>, c: WorkstreamCardView, p: int)
    requires
        0 <= p <= cards.len(),
        forall|k: int|
            p <= k < cards.len() ==> more_recent(active_at(c), active_at(#[trigger] cards[k])),
        p > 0 ==> !more_recent(active_at(c), active_at(cards[p - 1])),
    ensures
        placed(cards, c) == cards.insert(p, c),
    decreases cards.len(),
{
    if p < cards.len() {
        let front = cards.drop_last();
        assert(forall|k: int| p <= k < front.len() ==> #[trigger] front[k] == cards[k]);
        assert(p > 0 ==> front[p - 1] == cards[p - 1]);
        placed_where(front, c, p);
        assert(front.insert(p, c).push(cards.last()) =~= cards.insert(p, c));
    } else {
        assert(cards.insert(p, c) =~= cards.push(c));
    }
}

/// The cards of workstreams, the most recent first.
pub fn workstream_cards(rows: &Vec<CardRow>, projects: &Vec<ProjectName>) -> (r: Vec<
    WorkstreamCardView,
>)
    ensures
        r@ == cards_of(rows@, projects@),
{
    let mut cards: Vec<WorkstreamCardView> = Vec::new();
    let mut i: usize = 0;
    assert(rows@.take(0) =~= Seq::<CardRow>::empty());
    while i < rows.len()
        invariant
            i <= rows@.len(),
            cards@ == cards_of(rows@.take(i as int), projects@),
        decreases rows@.len() - i,
    {
        assert(rows@.take(i + 1).drop_last() =~= rows@.take(i as int));
        assert(rows@.take(i + 1).last() == rows@[i as int]);
        let c = card_of(&rows[i], projects);
        let at = activity(&c);
        let mut p: usize = cards.len();
        while p > 0 && is_more_recent(at, activity(&cards[p - 1]))
            invariant
                p <= cards@.len(),
                at == active_at(c),
                forall|k: int|
                    p <= k < cards@.len() ==> more_recent(
                        active_at(c),
                        active_at(#[trigger] cards@[k]),
                    ),
            decreases p,
        {
            p = p - 1;
        }
        proof {
            placed_where(cards@, c, p as int);
        }
        cards.insert(p, c);
        i = i + 1;
    }
    assert(rows@.take(i as int) =~= rows@);
    cards
}

// ---------------------------------------------------------------------------
// Laws
// ---------------------------------------------------------------------------

/// Cards in the order of their activity, the most recent first.
pub open spec fn in_order(cards: Seq<WorkstreamCardView>) -> bool {
    forall|i: int, j: int|
        0 <= i < j < cards.len() ==> !more_recent(
            active_at(#[trigger] cards[j]),
            active_at(#[trigger] cards[i]),
        )
}

proof fn placing_keeps_order(cards: Seq<WorkstreamCardView>, c: WorkstreamCardView)
    requires
        in_order(cards),
    ensures
        in_order(placed(cards, c)),
        placed(cards, c).to_multiset() == cards.to_multiset().insert(c),
        forall|k: int|
            0 <= k < placed(cards, c).len() ==> (#[trigger] placed(cards, c)[k] == c
                || cards.contains(placed(cards, c)[k])),
    decreases cards.len(),
{
    broadcast use vstd::seq_lib::group_to_multiset_ensures;

    let r = placed(cards, c);
    if cards.len() > 0 && more_recent(active_at(c), active_at(cards.last())) {
        let front = cards.drop_last();
        let last = cards.last();
        assert(in_order(front)) by {
            assert forall|i: int, j: int| 0 <= i < j < front.len() implies !more_recent(
                active_at(#[trigger] front[j]),
                active_at(#[trigger] front[i]),
            ) by {
                assert(front[i] == cards[i] && front[j] == cards[j]);
            }
        }
        placing_keeps_order(front, c);
        let p = placed(front, c);
        assert(r == p.push(last));
        assert forall|k: int| 0 <= k < r.len() implies (#[trigger] r[k] == c || cards.contains(
            r[k],
        )) by {
            if k < p.len() {
                assert(r[k] == p[k]);
                if p[k] != c {
                    let m = choose|m: int| 0 <= m < front.len() && front[m] == p[k];
                    assert(cards[m] == p[k]);
                }
            } else {
                assert(r[k] == cards[cards.len() - 1]);
            }
        }
        assert forall|i: int, j: int| 0 <= i < j < r.len() implies !more_recent(
            active_at(#[trigger] r[j]),
            active_at(#[trigger] r[i]),
        ) by {
            if j < p.len() {
                assert(r[i] == p[i] && r[j] == p[j]);
            } else {
                assert(r[j] == last && r[i] == p[i]);
                if p[i] != c {
                    let m = choose|m: int| 0 <= m < front.len() && front[m] == p[i];
                    assert(cards[m] == p[i] && cards[cards.len() - 1] == last);
                }
            }
        }
        assert(cards =~= front.push(last));
        assert(r.to_multiset() =~= cards.to_multiset().insert(c));
    } else {
        assert(r == cards.push(c));
        assert forall|k: int| 0 <= k < r.len() implies (#[trigger] r[k] == c || cards.contains(
            r[k],
        )) by {
            if k < cards.len() {
                assert(r[k] == cards[k]);
            }
        }
        assert forall|i: int, j: int| 0 <= i < j < r.len() implies !more_recent(
            active_at(#[trigger] r[j]),
            active_at(#[trigger] r[i]),
        ) by {
            if j < cards.len() {
                assert(r[i] == cards[i] && r[j] == cards[j]);
            } else {
                assert(r[j] == c && r[i] == cards[i]);
                if i < cards.len() - 1 {
                    assert(!more_recent(active_at(cards[cards.len() - 1]), active_at(cards[i])));
                }
            }
        }
    }
}

/// The cards of workstreams in their own order.
pub open spec fn unsorted(rows: Seq<CardRow>, projects: Seq<ProjectName>) -> Seq<
    WorkstreamCardView,
> {
    rows.map_values(|r: CardRow| card(r, projects))
}

/// The cards come in the order of their activity, the most recent first, and there is one for
/// every workstream.
pub proof fn cards_are_sorted(rows: Seq<CardRow>, projects: Seq<ProjectName>)
    ensures
        in_order(cards_of(rows, projects)),
        cards_of(rows, projects).to_multiset() == unsorted(rows, projects).to_multiset(),
    decreases rows.len(),
{
    broadcast use vstd::seq_lib::group_to_multiset_ensures;

    if rows.len() == 0 {
        assert(unsorted(rows, projects) =~= Seq::<WorkstreamCardView>::empty());
    } else {
        let front = rows.drop_last();
        let c = card(rows.last(), projects);
        cards_are_sorted(front, projects);
        placing_keeps_order(cards_of(front, projects), c);
        assert(unsorted(rows, projects) =~= unsorted(front, projects).push(c));
    }
}

/// The later of two times is one of them.
pub proof fn later_is_one_of_them(a: Option<String>, b: Option<String>)
    ensures
        later(a, b) == a || later(a, b) == b,
        later(a, b) is None <==> a is None && b is None,
{
}

} // verus!
