//! Launches that were prepared and wait for a confirmation.
//!
//! A prepared launch can be used once, and only within half an hour.
use crate::domain::Agent;
use crate::error::{other, AppError, Fault};
use crate::text::same;
use crate::time::{elapsed_seconds, instant_of, seconds_between};
use vstd::prelude::*;

verus! {

/// How long a prepared launch can be used, in seconds.
pub const PREPARED_LAUNCH_TTL_SECS: i64 = 1800;

/// A launch that waits for a confirmation.
pub struct PreparedLaunch {
    pub id: String,
    pub prepared_at: String,
    pub agent: Agent,
    pub owner_workstream_id: Option<String>,
    pub session_id: Option<String>,
    pub cwd: Option<String>,
}

/// Whether a launch that was prepared at one time can be used at another.
pub open spec fn is_fresh(prepared_at: Seq<char>, now: Seq<char>) -> bool {
    instant_of(prepared_at) is Some && instant_of(now) is Some && seconds_between(prepared_at, now)
        < PREPARED_LAUNCH_TTL_SECS
}

/// The launches that can be used at a time.
pub open spec fn fresh_launches(rows: Seq<PreparedLaunch>, now: Seq<char>) -> Seq<PreparedLaunch> {
    rows.filter(|p: PreparedLaunch| is_fresh(p.prepared_at@, now))
}

/// The launches but those with an id.
pub open spec fn without_launch(rows: Seq<PreparedLaunch>, id: Seq<char>) -> Seq<PreparedLaunch> {
    rows.filter(|p: PreparedLaunch| p.id@ != id)
}

/// The first launch with an id.
pub open spec fn launch_in(rows: Seq<PreparedLaunch>, id: Seq<char>) -> Option<PreparedLaunch>
    decreases rows.len(),
{
    if rows.len() == 0 {
        None
    } else if rows[0].id@ == id {
        Some(rows[0])
    } else {
        launch_in(rows.drop_first(), id)
    }
}

/// No two launches have the same id.
pub open spec fn are_distinct(rows: Seq<PreparedLaunch>) -> bool {
    forall|i: int, j: int|
        0 <= i < j < rows.len() ==> (#[trigger] rows[i]).id@ != (#[trigger] rows[j]).id@
}

/// What is left after a launch with an id was taken out at a time.
pub open spec fn left_after(rows: Seq<PreparedLaunch>, id: Seq<char>, now: Seq<char>) -> Seq<
    PreparedLaunch,
> {
    without_launch(fresh_launches(rows, now), id)
}

/// Forgets the launches that can no longer be used.
pub fn prune_stale_prepared_launches(map: &mut Vec<PreparedLaunch>, now: &str)
    ensures
        final(map)@ == fresh_launches(old(map)@, now@),
{
    let ghost rows = map@;
    let ghost keep = |p: PreparedLaunch| is_fresh(p.prepared_at@, now@);
    let mut i: usize = 0;
    proof {
        reveal(Seq::filter);
        assert(rows.take(0).filter(keep) =~= Seq::<PreparedLaunch>::empty());
        assert(rows.skip(0) =~= rows);
        assert(map@ =~= rows.take(0).filter(keep) + rows.skip(0));
    }
    let mut seen: usize = 0;
    let total: usize = map.len();
    while seen < total
        invariant
            keep == (|p: PreparedLaunch| is_fresh(p.prepared_at@, now@)),
            i <= seen <= total == rows.len(),
            rows.take(seen as int).filter(keep).len() == i,
            map@ == rows.take(seen as int).filter(keep) + rows.skip(seen as int),
        decreases total - seen,
    {
        let ghost kept = rows.take(seen as int).filter(keep);
        assert(map@[i as int] == rows[seen as int]);
        let fresh: bool = match elapsed_seconds(map[i].prepared_at.as_str(), now) {
            Some(s) => s < PREPARED_LAUNCH_TTL_SECS,
            None => false,
        };
        proof {
            reveal(Seq::filter);
            assert(rows.take(seen + 1).drop_last() =~= rows.take(seen as int));
            assert(rows.take(seen + 1).last() == rows[seen as int]);
            assert(rows.skip(seen as int) =~= seq![rows[seen as int]] + rows.skip(seen + 1));
        }
        if fresh {
            i = i + 1;
            assert(map@ =~= kept.push(rows[seen as int]) + rows.skip(seen + 1));
        } else {
            map.remove(i);
            assert(map@ =~= kept + rows.skip(seen + 1));
        }
        seen = seen + 1;
    }
    assert(rows.take(seen as int) =~= rows);
    assert(rows.skip(seen as int) =~= Seq::<PreparedLaunch>::empty());
}

fn take_out(map: &mut Vec<PreparedLaunch>, id: &str) -> (r: Option<PreparedLaunch>)
    ensures
        r == launch_in(old(map)@, id@),
        final(map)@ == without_launch(old(map)@, id@),
{
    let ghost rows = map@;
    let ghost keep = |p: PreparedLaunch| p.id@ != id@;
    let mut found: Option<PreparedLaunch> = None;
    let mut i: usize = 0;
    proof {
        reveal(Seq::filter);
        assert(rows.take(0).filter(keep) =~= Seq::<PreparedLaunch>::empty());
        assert(rows.skip(0) =~= rows);
        assert(map@ =~= rows.take(0).filter(keep) + rows.skip(0));
    }
    let mut seen: usize = 0;
    let total: usize = map.len();
    while seen < total
        invariant
            keep == (|p: PreparedLaunch| p.id@ != id@),
            i <= seen <= total == rows.len(),
            rows.take(seen as int).filter(keep).len() == i,
            map@ == rows.take(seen as int).filter(keep) + rows.skip(seen as int),
            launch_in(rows, id@) == (match found {
                Some(p) => Some(p),
                None => launch_in(rows.skip(seen as int), id@),
            }),
        decreases total - seen,
    {
        let ghost kept = rows.take(seen as int).filter(keep);
        assert(map@[i as int] == rows[seen as int]);
        proof {
            reveal(Seq::filter);
            assert(rows.take(seen + 1).drop_last() =~= rows.take(seen as int));
            assert(rows.take(seen + 1).last() == rows[seen as int]);
            assert(rows.skip(seen as int) =~= seq![rows[seen as int]] + rows.skip(seen + 1));
            assert(rows.skip(seen as int).drop_first() =~= rows.skip(seen + 1));
        }
        if same(map[i].id.as_str(), id) {
            let p = map.remove(i);
            assert(map@ =~= kept + rows.skip(seen + 1));
            if found.is_none() {
                found = Some(p);
            }
        } else {
            i = i + 1;
            assert(map@ =~= kept.push(rows[seen as int]) + rows.skip(seen + 1));
        }
        seen = seen + 1;
    }
    assert(rows.take(seen as int) =~= rows);
    assert(rows.skip(seen as int) =~= Seq::<PreparedLaunch>::empty());
    found
}

/// Takes a launch out in order to use it. It is gone then, whatever comes of it.
pub fn consume_prepared_launch(map: &mut Vec<PreparedLaunch>, prepared_id: &str, now: &str) -> (r:
    Result<PreparedLaunch, AppError>)
    ensures
        final(map)@ == left_after(old(map)@, prepared_id@, now@),
        match (launch_in(fresh_launches(old(map)@, now@), prepared_id@), r) {
            (Some(p), Ok(q)) => q == p,
            (None, Err(e)) => e.deep_view() == Fault::Other(
                "Prepared launch 已被使用或已过期，请刷新预览"@,
            ),
            _ => false,
        },
{
    prune_stale_prepared_launches(map, now);
    match take_out(map, prepared_id) {
        Some(p) => Ok(p),
        None => Err(other("Prepared launch 已被使用或已过期，请刷新预览")),
    }
}

/// Keeps a launch until it is confirmed, in place of an earlier one with its id.
pub fn keep_prepared(map: &mut Vec<PreparedLaunch>, prepared: PreparedLaunch, now: &str)
    ensures
        final(map)@ == left_after(old(map)@, prepared.id@, now@).push(prepared),
{
    prune_stale_prepared_launches(map, now);
    let _ = take_out(map, prepared.id.as_str());
    map.push(prepared);
}

/// Forgets a launch.
pub fn cancel_prepared(map: &mut Vec<PreparedLaunch>, prepared_id: &str, now: &str)
    ensures
        final(map)@ == left_after(old(map)@, prepared_id@, now@),
{
    prune_stale_prepared_launches(map, now);
    let _ = take_out(map, prepared_id);
}

// ---------------------------------------------------------------------------
// Laws
// ---------------------------------------------------------------------------

proof fn filtered_comes_from(rows: Seq<PreparedLaunch>, keep: spec_fn(PreparedLaunch) -> bool)
    ensures
        forall|k: int|
            0 <= k < rows.filter(keep).len() ==> rows.contains(#[trigger] rows.filter(keep)[k])
                && keep(rows.filter(keep)[k]),
    decreases rows.len(),
{
    reveal(Seq::filter);
    if rows.len() > 0 {
        let front = rows.drop_last();
        filtered_comes_from(front, keep);
        assert forall|k: int| 0 <= k < rows.filter(keep).len() implies rows.contains(
            #[trigger] rows.filter(keep)[k],
        ) && keep(rows.filter(keep)[k]) by {
            if k < front.filter(keep).len() {
                assert(rows.filter(keep)[k] == front.filter(keep)[k]);
                let m = choose|m: int| 0 <= m < front.len() && front[m] == front.filter(keep)[k];
                assert(rows[m] == front[m]);
            } else {
                assert(rows.filter(keep)[k] == rows[rows.len() - 1]);
            }
        }
    }
}

proof fn absent(rows: Seq<PreparedLaunch>, id: Seq<char>)
    requires
        forall|k: int| 0 <= k < rows.len() ==> (#[trigger] rows[k]).id@ != id,
    ensures
        launch_in(rows, id) is None,
    decreases rows.len(),
{
    if rows.len() > 0 {
        let rest = rows.drop_first();
        assert forall|k: int| 0 <= k < rest.len() implies (#[trigger] rest[k]).id@ != id by {
            assert(rest[k] == rows[k + 1]);
        }
        absent(rest, id);
    }
}

/// A prepared launch can be used once: after it was taken out, or cancelled, no launch has its id
/// at any time.
pub proof fn a_launch_is_used_once(
    rows: Seq<PreparedLaunch>,
    id: Seq<char>,
    now: Seq<char>,
    later: Seq<char>,
)
    ensures
        launch_in(fresh_launches(left_after(rows, id, now), later), id) is None,
{
    let fresh = fresh_launches(rows, now);
    let rest = left_after(rows, id, now);
    let other_id = |p: PreparedLaunch| p.id@ != id;
    let still = |p: PreparedLaunch| is_fresh(p.prepared_at@, later);
    filtered_comes_from(fresh, other_id);
    filtered_comes_from(rest, still);
    let last = fresh_launches(rest, later);
    assert forall|k: int| 0 <= k < last.len() implies (#[trigger] last[k]).id@ != id by {
        let m = choose|m: int| 0 <= m < rest.len() && rest[m] == last[k];
        assert(other_id(rest[m]));
    }
    absent(last, id);
}

proof fn found_is_there(rows: Seq<PreparedLaunch>, id: Seq<char>)
    ensures
        launch_in(rows, id) matches Some(p) ==> rows.contains(p) && p.id@ == id,
    decreases rows.len(),
{
    if rows.len() > 0 && rows[0].id@ != id {
        found_is_there(rows.drop_first(), id);
        if let Some(p) = launch_in(rows, id) {
            let m = choose|m: int| 0 <= m < rows.drop_first().len() && rows.drop_first()[m] == p;
            assert(rows[m + 1] == p);
        }
    }
}

/// What is used was prepared, under the id that was asked for, and is not stale.
pub proof fn what_is_used_was_prepared(rows: Seq<PreparedLaunch>, id: Seq<char>, now: Seq<char>)
    ensures
        launch_in(fresh_launches(rows, now), id) matches Some(p) ==> rows.contains(p) && p.id@ == id
            && is_fresh(p.prepared_at@, now),
{
    let fresh = fresh_launches(rows, now);
    found_is_there(fresh, id);
    filtered_comes_from(rows, |p: PreparedLaunch| is_fresh(p.prepared_at@, now));
    if let Some(p) = launch_in(fresh, id) {
        let k = choose|k: int| 0 <= k < fresh.len() && fresh[k] == p;
        assert(rows.contains(fresh[k]));
    }
}

proof fn filtering_keeps_distinct(
    rows: Seq<PreparedLaunch>,
    keep: spec_fn(PreparedLaunch) -> bool,
)
    requires
        are_distinct(rows),
    ensures
        are_distinct(rows.filter(keep)),
    decreases rows.len(),
{
    reveal(Seq::filter);
    if rows.len() > 0 {
        let front = rows.drop_last();
        assert forall|i: int, j: int| 0 <= i < j < front.len() implies (#[trigger] front[i]).id@ != (
        #[trigger] front[j]).id@ by {
            assert(front[i] == rows[i] && front[j] == rows[j]);
        }
        filtering_keeps_distinct(front, keep);
        filtered_comes_from(front, keep);
        let r = rows.filter(keep);
        let f = front.filter(keep);
        assert forall|i: int, j: int| 0 <= i < j < r.len() implies (#[trigger] r[i]).id@ != (
        #[trigger] r[j]).id@ by {
            assert(r[i] == f[i]);
            if j < f.len() {
                assert(r[j] == f[j]);
            } else {
                assert(front.contains(f[i]));
                let m = choose|m: int| 0 <= m < front.len() && front[m] == f[i];
                assert(rows[m] == f[i]);
                assert(r[j] == rows[rows.len() - 1]);
            }
        }
    }
}

/// No two prepared launches have the same id, whatever is done.
pub proof fn launches_stay_distinct(
    rows: Seq<PreparedLaunch>,
    prepared: PreparedLaunch,
    now: Seq<char>,
)
    requires
        are_distinct(rows),
    ensures
        are_distinct(fresh_launches(rows, now)),
        are_distinct(left_after(rows, prepared.id@, now)),
        are_distinct(left_after(rows, prepared.id@, now).push(prepared)),
{
    let fresh = fresh_launches(rows, now);
    let rest = left_after(rows, prepared.id@, now);
    let other_id = |p: PreparedLaunch| p.id@ != prepared.id@;
    filtering_keeps_distinct(rows, |p: PreparedLaunch| is_fresh(p.prepared_at@, now));
    filtering_keeps_distinct(fresh, other_id);
    filtered_comes_from(fresh, other_id);
    let all = rest.push(prepared);
    assert forall|i: int, j: int| 0 <= i < j < all.len() implies (#[trigger] all[i]).id@ != (
    #[trigger] all[j]).id@ by {
        assert(all[i] == rest[i]);
        if j < rest.len() {
            assert(all[j] == rest[j]);
        } else {
            assert(other_id(rest[i]));
        }
    }
}

} // verus!
