//! What holds of updates as a whole.
use crate::context::parts::{
    goes_on_from, part_of, readers_among, readers_of, targets_among, targets_of, taken_revision,
    unseen, Part, Reader, Target,
};
use crate::context::session::{still_there, uncovered, unmoved};
use crate::context::views::{
    behind, behind_count, covered, outdated, revision_of, session_picture, workstream_pending,
};
use crate::context::workstream::{
    commit_fault, draft_for, effective, holds, reader_fault, readers_fault, target_fault,
    targets_fault, write_reader, write_readers, write_target, write_targets, written, Written,
};
use crate::store::{
    member_of_workstream, message_ids, messages_of, owned_by, sessions_of, unowned, ContextRow,
    Revisions, Session, Store,
};
use crate::sync::Draft;
use vstd::prelude::*;

verus! {

/// A session is shown as pending exactly where an update would do something, provided that the
/// number of its last message says rightly whether there are messages behind its summary.
pub proof fn pending_means_work(store: Store, session: Seq<char>)
    requires
        uncovered(store, session).len() > 0 <==> store.reading(session).1 > covered(
            store.summary(session),
            store.reading(session).0,
        ),
    ensures
        session_picture(store, session).pending <==> (uncovered(store, session).len() > 0
            || outdated(store.summary(session), store.reading(session).0)),
{
}

/// After a summary was written up to a message, a session is pending exactly where there are later
/// messages.
pub proof fn a_written_summary_settles_a_session(
    before: Store,
    after: Store,
    row: ContextRow,
    from: i64,
    prefix: Seq<Seq<char>>,
    revision: i64,
)
    requires
        unmoved(
            before,
            row.session_id,
            revision,
            row.ingest_generation,
            from,
            row.processed_through_seq,
            prefix,
        ),
        after.summaries() == before.summaries().insert(row.session_id, row),
        after == (Store { contexts: after.contexts, ..before }),
    ensures
        session_picture(after, row.session_id).pending == (before.reading(row.session_id).1
            > row.processed_through_seq),
        session_picture(after, row.session_id).fields == Some(row.fields),
{
}

/// A session that a workstream has not taken in all of is part of its update, provided that the
/// number of its last message says rightly whether there are messages that it has not seen and
/// that no revision is negative.
pub proof fn what_is_behind_is_taken_in(store: Store, workstream: Seq<char>, s: Session)
    requires
        store.reading(s.id@).1 > goes_on_from(store, workstream, s.id@) ==> unseen(
            store,
            workstream,
            s.id@,
        ).len() > 0,
        taken_revision(store.frontier(workstream, s.id@)) >= 0,
    ensures
        behind(store, workstream, s.id@) ==> !(part_of(store, workstream, s) is Nothing),
{
}

// ---------------------------------------------------------------------------
// What an update writes of one session
// ---------------------------------------------------------------------------

/// No two sessions have the same id.
pub open spec fn distinct(sessions: Seq<Session>) -> bool {
    forall|i: int, j: int|
        0 <= i < j < sessions.len() ==> (#[trigger] sessions[i]).id@ != (
        #[trigger] sessions[j]).id@
}

/// Two states of the rows agree on a session.
pub open spec fn agree(a: Written, b: Written, workstream: Seq<char>, id: Seq<char>) -> bool {
    &&& a.summaries.contains_key(id) == b.summaries.contains_key(id)
    &&& a.summaries.contains_key(id) ==> a.summaries[id] == b.summaries[id]
    &&& a.taken.contains_key((workstream, id)) == b.taken.contains_key((workstream, id))
    &&& a.taken.contains_key((workstream, id)) ==> a.taken[(workstream, id)] == b.taken[(
        workstream,
        id,
    )]
}

/// Targets that have no session with an id do not touch what is kept under it; nothing is ever
/// written of another workstream's frontiers.
proof fn targets_leave_others(
    w: Written,
    store: Store,
    workstream: Seq<char>,
    sessions: Seq<Session>,
    drafts: Seq<Draft>,
    now: Seq<char>,
    other: Seq<char>,
    id: Seq<char>,
)
    ensures
        ({
            let r = write_targets(
                w,
                workstream,
                targets_among(store, workstream, sessions),
                drafts,
                now,
            );
            &&& (forall|i: int| 0 <= i < sessions.len() ==> (#[trigger] sessions[i]).id@ != id)
                ==> agree(r, w, workstream, id)
            &&& other != workstream ==> r.taken.contains_key((other, id)) == w.taken.contains_key(
                (other, id),
            ) && (w.taken.contains_key((other, id)) ==> r.taken[(other, id)] == w.taken[(
                other,
                id,
            )])
        }),
    decreases sessions.len(),
{
    if sessions.len() > 0 {
        let front = sessions.drop_last();
        targets_leave_others(w, store, workstream, front, drafts, now, other, id);
        assert(forall|i: int| 0 <= i < front.len() ==> #[trigger] front[i] == sessions[i]);
        assert(sessions.last() == sessions[sessions.len() - 1]);
        let before = targets_among(store, workstream, front);
        match part_of(store, workstream, sessions.last()) {
            Part::Target(t) => {
                assert(before.push(t).drop_last() =~= before);
                assert(t.session == sessions.last());
            },
            _ => {},
        }
    }
}

/// What is written of a session by the targets, where no two sessions have the same id.
proof fn targets_write(
    w: Written,
    store: Store,
    workstream: Seq<char>,
    sessions: Seq<Session>,
    drafts: Seq<Draft>,
    now: Seq<char>,
    j: int,
)
    requires
        distinct(sessions),
        0 <= j < sessions.len(),
    ensures
        ({
            let r = write_targets(
                w,
                workstream,
                targets_among(store, workstream, sessions),
                drafts,
                now,
            );
            match part_of(store, workstream, sessions[j]) {
                Part::Target(t) => agree(
                    r,
                    write_target(w, workstream, t, drafts, now),
                    workstream,
                    sessions[j].id@,
                ),
                _ => agree(r, w, workstream, sessions[j].id@),
            }
        }),
    decreases sessions.len(),
{
    let front = sessions.drop_last();
    let last = sessions.last();
    let before = targets_among(store, workstream, front);
    assert(forall|i: int| 0 <= i < front.len() ==> #[trigger] front[i] == sessions[i]);
    assert(last == sessions[sessions.len() - 1]);
    match part_of(store, workstream, last) {
        Part::Target(t) => {
            assert(before.push(t).drop_last() =~= before);
            assert(t.session == last);
        },
        _ => {},
    }
    if j == sessions.len() - 1 {
        targets_leave_others(w, store, workstream, front, drafts, now, workstream, last.id@);
    } else {
        assert(distinct(front));
        targets_write(w, store, workstream, front, drafts, now, j);
        assert(sessions[j].id@ != last.id@);
    }
}

/// Sessions that only show their summary do not touch what is kept of others.
proof fn readers_leave_others(
    w: Written,
    store: Store,
    workstream: Seq<char>,
    sessions: Seq<Session>,
    now: Seq<char>,
    other: Seq<char>,
    id: Seq<char>,
)
    ensures
        ({
            let r = write_readers(
                w,
                workstream,
                readers_among(store, workstream, sessions),
                now,
            );
            &&& (forall|i: int| 0 <= i < sessions.len() ==> (#[trigger] sessions[i]).id@ != id)
                ==> agree(r, w, workstream, id)
            &&& other != workstream ==> r.taken.contains_key((other, id)) == w.taken.contains_key(
                (other, id),
            ) && (w.taken.contains_key((other, id)) ==> r.taken[(other, id)] == w.taken[(
                other,
                id,
            )])
        }),
    decreases sessions.len(),
{
    if sessions.len() > 0 {
        let front = sessions.drop_last();
        readers_leave_others(w, store, workstream, front, now, other, id);
        assert(forall|i: int| 0 <= i < front.len() ==> #[trigger] front[i] == sessions[i]);
        assert(sessions.last() == sessions[sessions.len() - 1]);
        let before = readers_among(store, workstream, front);
        match part_of(store, workstream, sessions.last()) {
            Part::Reader(x) => {
                assert(before.push(x).drop_last() =~= before);
                assert(x.session_id == sessions.last().id@);
            },
            _ => {},
        }
    }
}

/// What is written of a session that only shows its summary, where no two sessions have the same
/// id.
proof fn readers_write(
    w: Written,
    store: Store,
    workstream: Seq<char>,
    sessions: Seq<Session>,
    now: Seq<char>,
    j: int,
)
    requires
        distinct(sessions),
        0 <= j < sessions.len(),
    ensures
        ({
            let r = write_readers(
                w,
                workstream,
                readers_among(store, workstream, sessions),
                now,
            );
            match part_of(store, workstream, sessions[j]) {
                Part::Reader(x) => agree(
                    r,
                    write_reader(w, workstream, x, now),
                    workstream,
                    sessions[j].id@,
                ),
                _ => agree(r, w, workstream, sessions[j].id@),
            }
        }),
    decreases sessions.len(),
{
    let front = sessions.drop_last();
    let last = sessions.last();
    let before = readers_among(store, workstream, front);
    assert(forall|i: int| 0 <= i < front.len() ==> #[trigger] front[i] == sessions[i]);
    assert(last == sessions[sessions.len() - 1]);
    match part_of(store, workstream, last) {
        Part::Reader(x) => {
            assert(before.push(x).drop_last() =~= before);
            assert(x.session_id == last.id@);
        },
        _ => {},
    }
    if j == sessions.len() - 1 {
        readers_leave_others(w, store, workstream, front, now, workstream, last.id@);
    } else {
        assert(distinct(front));
        readers_write(w, store, workstream, front, now, j);
        assert(sessions[j].id@ != last.id@);
    }
}

/// A session of the workstream keeps its frontier when those of foreign sessions go.
proof fn own_frontiers_stay(store: Store, workstream: Seq<char>, j: int)
    requires
        0 <= j < sessions_of(store.sessions@, workstream).len(),
    ensures
        !unowned(store.sessions@, workstream).contains(
            (workstream, sessions_of(store.sessions@, workstream)[j].id@),
        ),
{
    let all = store.sessions@;
    let wanted = |s: Session| owned_by(s, workstream) && s.trashed_at is None;
    let own = sessions_of(all, workstream);
    all.lemma_filter_contains_rev(wanted, own[j]);
    let s = own[j];
    assert(all.contains(s));
    let k = choose|k: int| 0 <= k < all.len() && all[k] == s;
    all.lemma_filter_pred(wanted, j);
    assert(all[k].id@ == s.id@ && owned_by(all[k], workstream));
    assert(member_of_workstream(all, workstream, s.id@));
}

/// What is kept of a session after an update of its workstream.
pub open spec fn settled(
    before: Store,
    workstream: Seq<char>,
    s: Session,
    drafts: Seq<Draft>,
    now: Seq<char>,
) -> Written {
    let start = Written {
        summaries: before.summaries(),
        taken: before.taken_in(),
        updated: Seq::empty(),
    };
    match part_of(before, workstream, s) {
        Part::Target(t) => write_target(start, workstream, t, drafts, now),
        Part::Reader(r) => write_reader(start, workstream, r, now),
        Part::Nothing => start,
    }
}

proof fn each_session_is_settled(
    before: Store,
    workstream: Seq<char>,
    drafts: Seq<Draft>,
    now: Seq<char>,
    j: int,
)
    requires
        distinct(sessions_of(before.sessions@, workstream)),
        0 <= j < sessions_of(before.sessions@, workstream).len(),
    ensures
        ({
            let s = sessions_of(before.sessions@, workstream)[j];
            agree(
                written(
                    before,
                    workstream,
                    targets_of(before, workstream),
                    readers_of(before, workstream),
                    drafts,
                    now,
                ),
                settled(before, workstream, s, drafts, now),
                workstream,
                s.id@,
            )
        }),
{
    let sessions = sessions_of(before.sessions@, workstream);
    let s = sessions[j];
    let start = Written {
        summaries: before.summaries(),
        taken: before.taken_in(),
        updated: Seq::empty(),
    };
    let w1 = write_targets(start, workstream, targets_of(before, workstream), drafts, now);
    let w2 = Written { taken: w1.taken.remove_keys(unowned(before.sessions@, workstream)), ..w1 };
    targets_write(start, before, workstream, sessions, drafts, now, j);
    own_frontiers_stay(before, workstream, j);
    assert(agree(w2, w1, workstream, s.id@));
    readers_write(w2, before, workstream, sessions, now, j);
}

// ---------------------------------------------------------------------------
// Laws of workstreams
// ---------------------------------------------------------------------------

proof fn none_behind(store: Store, workstream: Seq<char>, sessions: Seq<Session>)
    requires
        forall|i: int|
            0 <= i < sessions.len() ==> !behind(store, workstream, (#[trigger] sessions[i]).id@),
    ensures
        behind_count(store, workstream, sessions) == 0,
    decreases sessions.len(),
{
    if sessions.len() > 0 {
        let front = sessions.drop_last();
        assert(forall|i: int| 0 <= i < front.len() ==> #[trigger] front[i] == sessions[i]);
        none_behind(store, workstream, front);
        assert(sessions.last() == sessions[sessions.len() - 1]);
    }
}

/// An update of a workstream that took in every session leaves nothing pending: all that people
/// put in and every message and summary of its sessions have been taken in. This rests on what the
/// rows keep to: no two sessions have the same id, and the messages that were sent of a session
/// reach up to its last one; and on the answer, which has a summary of every session asked about.
pub proof fn a_whole_update_leaves_nothing_pending(
    before: Store,
    after: Store,
    workstream: Seq<char>,
    drafts: Seq<Draft>,
    now: Seq<char>,
)
    requires
        distinct(sessions_of(before.sessions@, workstream)),
        forall|i: int|
            0 <= i < sessions_of(before.sessions@, workstream).len() ==> reaches_the_end(
                before,
                workstream,
                (#[trigger] sessions_of(before.sessions@, workstream)[i]),
                drafts,
            ),
        holds(
            before,
            after,
            written(
                before,
                workstream,
                targets_of(before, workstream),
                readers_of(before, workstream),
                drafts,
                now,
            ),
        ),
        after.revisions(workstream).input == after.revisions(workstream).consumed_input,
    ensures
        !workstream_pending(after, workstream),
{
    let sessions = sessions_of(before.sessions@, workstream);
    assert forall|i: int| 0 <= i < sessions.len() implies !behind(
        after,
        workstream,
        (#[trigger] sessions[i]).id@,
    ) by {
        let s = sessions[i];
        assert(reaches_the_end(before, workstream, s, drafts));
        each_session_is_settled(before, workstream, drafts, now, i);
        assert(after.reading(s.id@) == before.reading(s.id@));
    }
    none_behind(after, workstream, sessions);
}

/// The messages that are sent of a session reach up to its last one, its counters are not negative
/// and leave room, and there is a summary of it in the answer where it is asked about.
pub open spec fn reaches_the_end(
    store: Store,
    workstream: Seq<char>,
    s: Session,
    drafts: Seq<Draft>,
) -> bool {
    let from = goes_on_from(store, workstream, s.id@);
    let messages = unseen(store, workstream, s.id@);
    &&& 0 <= from
    &&& 0 <= taken_revision(store.frontier(workstream, s.id@))
    &&& store.reading(s.id@).1 <= from + messages.len() <= i64::MAX
    &&& revision_of(store.summary(s.id@)) < i64::MAX
    &&& messages.len() > 0 ==> draft_for(drafts, s.id@) is Some
}

/// An update of a workstream does not touch what other workstreams have taken in.
pub proof fn other_workstreams_keep_their_frontiers(
    before: Store,
    workstream: Seq<char>,
    drafts: Seq<Draft>,
    now: Seq<char>,
    other: Seq<char>,
    session: Seq<char>,
)
    requires
        other != workstream,
    ensures
        ({
            let w = written(
                before,
                workstream,
                targets_of(before, workstream),
                readers_of(before, workstream),
                drafts,
                now,
            );
            &&& w.taken.contains_key((other, session)) == before.taken_in().contains_key(
                (other, session),
            )
            &&& before.taken_in().contains_key((other, session)) ==> w.taken[(other, session)]
                == before.taken_in()[(other, session)]
        }),
{
    let sessions = sessions_of(before.sessions@, workstream);
    let start = Written {
        summaries: before.summaries(),
        taken: before.taken_in(),
        updated: Seq::empty(),
    };
    let w1 = write_targets(start, workstream, targets_of(before, workstream), drafts, now);
    let w2 = Written { taken: w1.taken.remove_keys(unowned(before.sessions@, workstream)), ..w1 };
    targets_leave_others(start, before, workstream, sessions, drafts, now, other, session);
    readers_leave_others(w2, before, workstream, sessions, now, other, session);
}

/// A session of the workstream that has nothing new keeps its summary and its frontier.
pub proof fn a_session_without_news_is_left_alone(
    before: Store,
    workstream: Seq<char>,
    drafts: Seq<Draft>,
    now: Seq<char>,
    j: int,
)
    requires
        distinct(sessions_of(before.sessions@, workstream)),
        0 <= j < sessions_of(before.sessions@, workstream).len(),
        part_of(before, workstream, sessions_of(before.sessions@, workstream)[j]) is Nothing,
    ensures
        ({
            let id = sessions_of(before.sessions@, workstream)[j].id@;
            let w = written(
                before,
                workstream,
                targets_of(before, workstream),
                readers_of(before, workstream),
                drafts,
                now,
            );
            &&& w.summaries.contains_key(id) == before.summaries().contains_key(id)
            &&& before.summaries().contains_key(id) ==> w.summaries[id] == before.summaries()[id]
            &&& w.taken.contains_key((workstream, id)) == before.taken_in().contains_key(
                (workstream, id),
            )
            &&& before.taken_in().contains_key((workstream, id)) ==> w.taken[(workstream, id)]
                == before.taken_in()[(workstream, id)]
        }),
{
    each_session_is_settled(before, workstream, drafts, now, j);
}

/// The frontier of a session that is no longer the workstream's own is gone after an update.
pub proof fn a_former_session_is_forgotten(
    before: Store,
    workstream: Seq<char>,
    drafts: Seq<Draft>,
    now: Seq<char>,
    session: Seq<char>,
)
    requires
        !member_of_workstream(before.sessions@, workstream, session),
    ensures
        !written(
            before,
            workstream,
            targets_of(before, workstream),
            readers_of(before, workstream),
            drafts,
            now,
        ).taken.contains_key((workstream, session)),
{
    let sessions = sessions_of(before.sessions@, workstream);
    let start = Written {
        summaries: before.summaries(),
        taken: before.taken_in(),
        updated: Seq::empty(),
    };
    let w1 = write_targets(start, workstream, targets_of(before, workstream), drafts, now);
    let w2 = Written { taken: w1.taken.remove_keys(unowned(before.sessions@, workstream)), ..w1 };
    assert(unowned(before.sessions@, workstream).contains((workstream, session)));
    assert forall|i: int| 0 <= i < sessions.len() implies (#[trigger] sessions[i]).id@
        != session by {
        own_frontiers_stay(before, workstream, i);
    }
    readers_leave_others(w2, before, workstream, sessions, now, workstream, session);
}

// ---------------------------------------------------------------------------
// What is written of a session
// ---------------------------------------------------------------------------

/// Whether a draft is the last one that names a session.
pub open spec fn last_named(drafts: Seq<Draft>, session: Seq<char>, i: int) -> bool {
    &&& 0 <= i < drafts.len()
    &&& drafts[i].session_id == session
    &&& forall|j: int| i < j < drafts.len() ==> (#[trigger] drafts[j]).session_id != session
}

/// The summary of a session comes from a draft that names that very session, the last one; there
/// is none exactly where no draft names it.
pub proof fn a_summary_comes_from_its_own_draft(drafts: Seq<Draft>, session: Seq<char>)
    ensures
        match draft_for(drafts, session) {
            Some(fields) => exists|i: int|
                #[trigger] last_named(drafts, session, i) && drafts[i].fields == fields,
            None => forall|i: int|
                0 <= i < drafts.len() ==> (#[trigger] drafts[i]).session_id != session,
        },
    decreases drafts.len(),
{
    if drafts.len() > 0 {
        let front = drafts.drop_last();
        let last = drafts.len() - 1;
        assert(forall|i: int| 0 <= i < last ==> #[trigger] drafts[i] == front[i]);
        if drafts[last].session_id == session {
            assert(last_named(drafts, session, last));
        } else {
            a_summary_comes_from_its_own_draft(front, session);
            match draft_for(front, session) {
                Some(fields) => {
                    let i = choose|i: int|
                        #[trigger] last_named(front, session, i) && front[i].fields == fields;
                    assert(last_named(drafts, session, i));
                },
                None => {},
            }
        }
    }
}

/// Where a single draft names a session, its fields are the summary.
pub proof fn the_only_draft_of_a_session_is_its_summary(
    drafts: Seq<Draft>,
    session: Seq<char>,
    i: int,
)
    requires
        last_named(drafts, session, i),
    ensures
        draft_for(drafts, session) == Some(drafts[i].fields),
    decreases drafts.len(),
{
    if i < drafts.len() - 1 {
        assert(drafts[drafts.len() - 1].session_id != session);
        assert(last_named(drafts.drop_last(), session, i));
        the_only_draft_of_a_session_is_its_summary(drafts.drop_last(), session, i);
    }
}

/// No other target is of the same session.
pub open spec fn single(targets: Seq<Target>, k: int) -> bool {
    forall|j: int|
        0 <= j < targets.len() && j != k ==> (#[trigger] targets[j]).session.id@
            != targets[k].session.id@
}

/// No other reader is of the same session.
pub open spec fn single_reader(readers: Seq<Reader>, k: int) -> bool {
    forall|j: int|
        0 <= j < readers.len() && j != k ==> (#[trigger] readers[j]).session_id
            != readers[k].session_id
}

proof fn other_targets_are_no_matter(
    w: Written,
    workstream: Seq<char>,
    targets: Seq<Target>,
    drafts: Seq<Draft>,
    now: Seq<char>,
    id: Seq<char>,
)
    requires
        forall|j: int| 0 <= j < targets.len() ==> (#[trigger] targets[j]).session.id@ != id,
    ensures
        agree(write_targets(w, workstream, targets, drafts, now), w, workstream, id),
    decreases targets.len(),
{
    if targets.len() > 0 {
        assert(targets[targets.len() - 1].session.id@ != id);
        other_targets_are_no_matter(w, workstream, targets.drop_last(), drafts, now, id);
    }
}

proof fn a_target_is_written_on_its_own(
    w: Written,
    workstream: Seq<char>,
    targets: Seq<Target>,
    drafts: Seq<Draft>,
    now: Seq<char>,
    k: int,
)
    requires
        0 <= k < targets.len(),
        single(targets, k),
    ensures
        agree(
            write_targets(w, workstream, targets, drafts, now),
            write_target(w, workstream, targets[k], drafts, now),
            workstream,
            targets[k].session.id@,
        ),
    decreases targets.len(),
{
    let front = targets.drop_last();
    assert(forall|i: int| 0 <= i < front.len() ==> #[trigger] front[i] == targets[i]);
    if k == targets.len() - 1 {
        other_targets_are_no_matter(w, workstream, front, drafts, now, targets[k].session.id@);
    } else {
        assert(targets[targets.len() - 1].session.id@ != targets[k].session.id@);
        a_target_is_written_on_its_own(w, workstream, front, drafts, now, k);
    }
}

proof fn other_readers_are_no_matter(
    w: Written,
    workstream: Seq<char>,
    readers: Seq<Reader>,
    now: Seq<char>,
    id: Seq<char>,
)
    requires
        forall|j: int| 0 <= j < readers.len() ==> (#[trigger] readers[j]).session_id != id,
    ensures
        agree(write_readers(w, workstream, readers, now), w, workstream, id),
    decreases readers.len(),
{
    if readers.len() > 0 {
        assert(readers[readers.len() - 1].session_id != id);
        other_readers_are_no_matter(w, workstream, readers.drop_last(), now, id);
    }
}

proof fn a_reader_is_written_on_its_own(
    w: Written,
    workstream: Seq<char>,
    readers: Seq<Reader>,
    now: Seq<char>,
    k: int,
)
    requires
        0 <= k < readers.len(),
        single_reader(readers, k),
    ensures
        agree(
            write_readers(w, workstream, readers, now),
            write_reader(w, workstream, readers[k], now),
            workstream,
            readers[k].session_id,
        ),
    decreases readers.len(),
{
    let front = readers.drop_last();
    assert(forall|i: int| 0 <= i < front.len() ==> #[trigger] front[i] == readers[i]);
    if k == readers.len() - 1 {
        other_readers_are_no_matter(w, workstream, front, now, readers[k].session_id);
    } else {
        assert(readers[readers.len() - 1].session_id != readers[k].session_id);
        a_reader_is_written_on_its_own(w, workstream, front, now, k);
    }
}

/// A session is owned by a workstream, in the trash or not.
pub open spec fn owns(store: Store, workstream: Seq<char>, session: Seq<char>) -> bool {
    exists|i: int|
        0 <= i < store.sessions@.len() && (#[trigger] store.sessions@[i]).id@ == session && (
        store.sessions@[i].owner_workstream_id matches Some(w) && w@ == workstream)
}

/// The summary that is stored of a target after an update has the fields of the draft that names
/// it, one revision more than before, and reaches up to the last message that was sent; a target
/// that no draft names keeps what it had. What the workstream has taken in of it is that summary.
pub proof fn each_target_gets_its_own_summary(
    before: Store,
    after: Store,
    workstream: Seq<char>,
    targets: Seq<Target>,
    readers: Seq<Reader>,
    drafts: Seq<Draft>,
    now: Seq<char>,
    k: int,
)
    requires
        0 <= k < targets.len(),
        single(targets, k),
        forall|j: int|
            0 <= j < readers.len() ==> (#[trigger] readers[j]).session_id
                != targets[k].session.id@,
        0 <= targets[k].from,
        targets[k].from + targets[k].messages.len() <= i64::MAX,
        targets[k].existing matches Some(c) ==> c.revision < i64::MAX,
        holds(
            before,
            after,
            written(before, workstream, targets, readers, drafts, now),
        ),
    ensures
        ({
            let t = targets[k];
            let id = t.session.id@;
            let revision: int = (match t.existing {
                Some(c) => c.revision as int,
                None => 0,
            }) + 1;
            &&& forall|i: int|
                #[trigger] last_named(drafts, id, i) ==> {
                    &&& after.summary(id) matches Some(row) && {
                        &&& row.session_id == id
                        &&& row.fields == drafts[i].fields
                        &&& row.revision == revision
                        &&& row.ingest_generation == t.generation
                        &&& row.processed_through_seq == t.from + t.messages.len()
                        &&& row.updated_at == now
                    }
                    &&& owns(before, workstream, id) ==> (after.frontier(workstream, id) matches Some(
                        f,
                    ) && {
                        &&& f.session_context_revision == revision
                        &&& f.ingest_generation == t.generation
                        &&& f.consumed_through_seq == t.from + t.messages.len()
                    })
                }
            &&& (forall|i: int| 0 <= i < drafts.len() ==> (#[trigger] drafts[i]).session_id != id)
                ==> after.summary(id) == before.summary(id) && (owns(before, workstream, id)
                ==> after.frontier(workstream, id) == before.frontier(workstream, id))
        }),
{
    let t = targets[k];
    let id = t.session.id@;
    let start = Written {
        summaries: before.summaries(),
        taken: before.taken_in(),
        updated: Seq::empty(),
    };
    let gone = unowned(before.sessions@, workstream);
    let w1 = write_targets(start, workstream, targets, drafts, now);
    let w2 = Written { taken: w1.taken.remove_keys(gone), ..w1 };
    a_target_is_written_on_its_own(start, workstream, targets, drafts, now, k);
    other_readers_are_no_matter(w2, workstream, readers, now, id);
    a_summary_comes_from_its_own_draft(drafts, id);
    if owns(before, workstream, id) {
        let i = choose|i: int|
            0 <= i < before.sessions@.len() && (#[trigger] before.sessions@[i]).id@ == id && (
            before.sessions@[i].owner_workstream_id matches Some(w) && w@ == workstream);
        assert(before.sessions@[i].id@ == id && owned_by(before.sessions@[i], workstream));
        assert(member_of_workstream(before.sessions@, workstream, id));
        assert(!gone.contains((workstream, id)));
    }
    assert forall|i: int| #[trigger] last_named(drafts, id, i) implies {
        &&& after.summary(id) matches Some(row) && {
            &&& row.session_id == id
            &&& row.fields == drafts[i].fields
            &&& row.ingest_generation == t.generation
            &&& row.processed_through_seq == t.from + t.messages.len()
            &&& row.updated_at == now
        }
    } by {
        the_only_draft_of_a_session_is_its_summary(drafts, id, i);
    }
    assert forall|i: int| #[trigger] last_named(drafts, id, i) implies draft_for(drafts, id)
        is Some by {
        the_only_draft_of_a_session_is_its_summary(drafts, id, i);
    }
}

/// A session that only showed its summary keeps it, unless its conversation was replaced: then
/// the summary says nothing any more and counts one revision more. Either way the workstream has
/// taken in all of it.
pub proof fn each_reader_is_taken_in(
    before: Store,
    after: Store,
    workstream: Seq<char>,
    targets: Seq<Target>,
    readers: Seq<Reader>,
    drafts: Seq<Draft>,
    now: Seq<char>,
    k: int,
)
    requires
        0 <= k < readers.len(),
        single_reader(readers, k),
        forall|j: int|
            0 <= j < targets.len() ==> (#[trigger] targets[j]).session.id@
                != readers[k].session_id,
        readers[k].context matches Some(c) ==> c.revision < i64::MAX,
        holds(
            before,
            after,
            written(before, workstream, targets, readers, drafts, now),
        ),
    ensures
        ({
            let r = readers[k];
            let id = r.session_id;
            &&& r.invalidate_context && r.context is Some ==> (after.summary(id) matches Some(row)
                && {
                &&& row.session_id == id
                &&& row.fields.summary_current_state.len() == 0
                &&& row.fields.decisions.len() == 0
                &&& row.fields.open_questions.len() == 0
                &&& row.fields.next_steps.len() == 0
                &&& row.revision == r.context->0.revision + 1
                &&& row.ingest_generation == r.generation
                &&& row.processed_through_seq == 0
                &&& row.updated_at == now
            })
            &&& !(r.invalidate_context && r.context is Some) ==> after.summary(id)
                == before.summary(id)
            &&& after.frontier(workstream, id) matches Some(f) && {
                &&& f.ingest_generation == r.generation
                &&& f.consumed_through_seq == r.latest_message_seq
                &&& f.session_context_revision == (match r.context {
                    Some(c) => c.revision + (if r.invalidate_context {
                        1int
                    } else {
                        0
                    }),
                    None => 0,
                })
            }
        }),
{
    let r = readers[k];
    let id = r.session_id;
    let start = Written {
        summaries: before.summaries(),
        taken: before.taken_in(),
        updated: Seq::empty(),
    };
    let w1 = write_targets(start, workstream, targets, drafts, now);
    let w2 = Written { taken: w1.taken.remove_keys(unowned(before.sessions@, workstream)), ..w1 };
    other_targets_are_no_matter(start, workstream, targets, drafts, now, id);
    a_reader_is_written_on_its_own(w2, workstream, readers, now, k);
}

/// The sessions that are told to be new are those of the targets that a draft names.
pub proof fn only_sessions_with_a_draft_are_updated(
    w: Written,
    workstream: Seq<char>,
    targets: Seq<Target>,
    drafts: Seq<Draft>,
    now: Seq<char>,
    id: Seq<char>,
)
    ensures
        write_targets(w, workstream, targets, drafts, now).updated.contains(id) <==> (
        w.updated.contains(id) || ((exists|k: int|
            0 <= k < targets.len() && (#[trigger] targets[k]).session.id@ == id) && (exists|i: int|
            0 <= i < drafts.len() && (#[trigger] drafts[i]).session_id == id))),
    decreases targets.len(),
{
    if targets.len() > 0 {
        let front = targets.drop_last();
        let last = targets.last();
        only_sessions_with_a_draft_are_updated(w, workstream, front, drafts, now, id);
        a_summary_comes_from_its_own_draft(drafts, last.session.id@);
        let u = write_targets(w, workstream, front, drafts, now).updated;
        assert(forall|k: int| 0 <= k < front.len() ==> #[trigger] front[k] == targets[k]);
        assert(targets[targets.len() - 1] == last);
        match draft_for(drafts, last.session.id@) {
            Some(fields) => {
                let i = choose|i: int|
                    #[trigger] last_named(drafts, last.session.id@, i) && drafts[i].fields
                        == fields;
                assert(drafts[i].session_id == last.session.id@);
                let more = u.push(last.session.id@);
                assert(more[u.len() as int] == last.session.id@);
                assert(forall|j: int| 0 <= j < u.len() ==> more[j] == #[trigger] u[j]);
                if u.contains(id) {
                    let j = choose|j: int| 0 <= j < u.len() && u[j] == id;
                    assert(more[j] == id);
                }
                if more.contains(id) {
                    let j = choose|j: int| 0 <= j < more.len() && more[j] == id;
                    if j < u.len() {
                        assert(u[j] == id);
                    }
                }
                assert(more.contains(id) <==> u.contains(id) || id == last.session.id@);
            },
            None => {},
        }
        let here = exists|k: int|
            0 <= k < targets.len() && (#[trigger] targets[k]).session.id@ == id;
        let there = exists|k: int| 0 <= k < front.len() && (#[trigger] front[k]).session.id@ == id;
        if there {
            let k = choose|k: int|
                0 <= k < front.len() && (#[trigger] front[k]).session.id@ == id;
            assert(targets[k].session.id@ == id);
        }
        if here {
            let k = choose|k: int|
                0 <= k < targets.len() && (#[trigger] targets[k]).session.id@ == id;
            if k < front.len() {
                assert(front[k].session.id@ == id);
            }
        }
        assert(here <==> there || id == last.session.id@);
    }
}

/// The sessions that are told to be new after a whole update are those of the targets that a
/// draft names.
pub proof fn an_update_tells_its_new_summaries(
    store: Store,
    workstream: Seq<char>,
    targets: Seq<Target>,
    readers: Seq<Reader>,
    drafts: Seq<Draft>,
    now: Seq<char>,
    id: Seq<char>,
)
    ensures
        written(store, workstream, targets, readers, drafts, now).updated.contains(id) <==> ((
        exists|k: int| 0 <= k < targets.len() && (#[trigger] targets[k]).session.id@ == id) && (
        exists|i: int| 0 <= i < drafts.len() && (#[trigger] drafts[i]).session_id == id)),
{
    let start = Written {
        summaries: store.summaries(),
        taken: store.taken_in(),
        updated: Seq::empty(),
    };
    only_sessions_with_a_draft_are_updated(start, workstream, targets, drafts, now, id);
    let w1 = write_targets(start, workstream, targets, drafts, now);
    let w2 = Written { taken: w1.taken.remove_keys(unowned(store.sessions@, workstream)), ..w1 };
    readers_tell_nothing(w2, workstream, readers, now);
}

proof fn readers_tell_nothing(
    w: Written,
    workstream: Seq<char>,
    readers: Seq<Reader>,
    now: Seq<char>,
)
    ensures
        write_readers(w, workstream, readers, now).updated == w.updated,
    decreases readers.len(),
{
    if readers.len() > 0 {
        readers_tell_nothing(w, workstream, readers.drop_last(), now);
    }
}

/// As many changes took effect as were told to.
pub proof fn effects_add_up(a: Seq<bool>, b: Seq<bool>)
    ensures
        effective(a + b) == effective(a) + effective(b),
        effective(seq![true]) == 1,
        effective(seq![false]) == 0,
        effective(Seq::empty()) == 0,
    decreases b.len(),
{
    assert(seq![true].drop_last() =~= Seq::<bool>::empty());
    assert(seq![false].drop_last() =~= Seq::<bool>::empty());
    reveal_with_fuel(effective, 2);
    if b.len() == 0 {
        assert(a + b =~= a);
    } else {
        effects_add_up(a, b.drop_last());
        assert((a + b).drop_last() =~= a + b.drop_last());
        assert((a + b).last() == b.last());
    }
}

// ---------------------------------------------------------------------------
// When an answer comes too late
// ---------------------------------------------------------------------------

/// The messages that were sent stand where they stood.
pub open spec fn messages_stand(
    store: Store,
    session: Seq<char>,
    from: int,
    sent: Seq<Seq<char>>,
) -> bool {
    let now = messages_of(store.messages@, session);
    forall|i: int|
        0 <= i < sent.len() ==> 0 <= from + i < now.len() && now[from + i].id@ == #[trigger] sent[i]
}

proof fn still_there_means_unmoved(store: Store, session: Seq<char>, from: int, sent: Seq<Seq<char>>)
    requires
        0 <= from,
    ensures
        still_there(message_ids(messages_of(store.messages@, session)), from, sent)
            <==> messages_stand(store, session, from, sent),
{
    let now = messages_of(store.messages@, session);
    let ids = message_ids(now);
    if still_there(ids, from, sent) && sent.len() > 0 {
        assert forall|i: int| 0 <= i < sent.len() implies 0 <= from + i < now.len() && now[from
            + i].id@ == #[trigger] sent[i] by {
            assert(ids.subrange(from, from + sent.len())[i] == sent[i]);
        }
    }
    if messages_stand(store, session, from, sent) && sent.len() > 0 {
        assert(sent[sent.len() - 1] == sent[sent.len() - 1]);
        assert(from + (sent.len() - 1) < now.len());
        assert(ids.subrange(from, from + sent.len()) =~= sent);
    }
}

/// A summary is written exactly where its revision, the conversation's generation and the
/// messages that were sent are still what they were.
pub proof fn a_moved_session_is_refused(
    store: Store,
    session: Seq<char>,
    revision: i64,
    generation: i64,
    from: i64,
    upper: i64,
    sent: Seq<Seq<char>>,
)
    requires
        0 <= from,
    ensures
        unmoved(store, session, revision, generation, from, upper, sent) <==> {
            &&& revision == (match store.summary(session) {
                Some(c) => c.revision,
                None => 0,
            })
            &&& generation == store.reading(session).0
            &&& upper <= messages_of(store.messages@, session).len()
            &&& messages_stand(store, session, from as int, sent)
        },
{
    still_there_means_unmoved(store, session, from as int, sent);
}

/// What a target was when it was asked about.
pub open spec fn target_stands(store: Store, t: Target) -> bool {
    let id = t.session.id@;
    &&& (match store.summary(id) {
        Some(c) => c.revision,
        None => 0,
    }) == (match t.existing {
        Some(c) => c.revision,
        None => 0,
    })
    &&& store.reading(id).0 == t.generation
    &&& t.from + t.messages.len() <= messages_of(store.messages@, id).len()
    &&& forall|i: int|
        0 <= i < t.messages.len() ==> messages_of(store.messages@, id)[t.from + i].id@ == (
        #[trigger] t.messages[i]).id@
}

/// What a reader was when it was shown.
pub open spec fn reader_stands(store: Store, r: Reader) -> bool {
    &&& (match store.summary(r.session_id) {
        Some(c) => c.revision,
        None => 0,
    }) == (match r.context {
        Some(c) => c.revision,
        None => 0,
    })
    &&& store.reading(r.session_id).0 == r.generation
    &&& store.reading(r.session_id).1 == r.latest_message_seq
}

proof fn a_target_fault_means_a_move(store: Store, t: Target)
    requires
        0 <= t.from,
    ensures
        target_fault(store, t) is None <==> target_stands(store, t),
{
    let id = t.session.id@;
    let sent = message_ids(t.messages);
    still_there_means_unmoved(store, id, t.from as int, sent);
    assert(forall|i: int| 0 <= i < t.messages.len() ==> #[trigger] sent[i] == t.messages[i].id@);
    if target_stands(store, t) {
        assert forall|i: int| 0 <= i < sent.len() implies 0 <= t.from + i < messages_of(
            store.messages@,
            id,
        ).len() && messages_of(store.messages@, id)[t.from + i].id@ == #[trigger] sent[i] by {
            assert(t.messages[i].id@ == sent[i]);
        }
    }
    if messages_stand(store, id, t.from as int, sent) {
        assert forall|i: int| 0 <= i < t.messages.len() implies messages_of(
            store.messages@,
            id,
        )[t.from + i].id@ == (#[trigger] t.messages[i]).id@ by {
            assert(sent[i] == t.messages[i].id@);
        }
    }
}

proof fn target_faults_mean_moves(store: Store, targets: Seq<Target>)
    requires
        forall|i: int| 0 <= i < targets.len() ==> 0 <= (#[trigger] targets[i]).from,
    ensures
        targets_fault(store, targets) is None <==> forall|i: int|
            0 <= i < targets.len() ==> target_stands(store, #[trigger] targets[i]),
    decreases targets.len(),
{
    if targets.len() > 0 {
        let front = targets.drop_last();
        let last = targets.len() - 1;
        assert(forall|i: int| 0 <= i < last ==> #[trigger] targets[i] == front[i]);
        target_faults_mean_moves(store, front);
        assert(0 <= targets[last].from);
        a_target_fault_means_a_move(store, targets[last]);
        if targets_fault(store, targets) is None {
            assert forall|i: int| 0 <= i < targets.len() implies target_stands(
                store,
                #[trigger] targets[i],
            ) by {
                if i < last {
                    assert(target_stands(store, front[i]));
                }
            }
        }
        if forall|i: int| 0 <= i < targets.len() ==> target_stands(store, #[trigger] targets[i]) {
            assert(target_stands(store, targets[last]));
            assert forall|i: int| 0 <= i < front.len() implies target_stands(
                store,
                #[trigger] front[i],
            ) by {
                assert(target_stands(store, targets[i]));
            }
        }
    }
}

proof fn reader_faults_mean_moves(store: Store, readers: Seq<Reader>)
    ensures
        readers_fault(store, readers) is None <==> forall|i: int|
            0 <= i < readers.len() ==> reader_stands(store, #[trigger] readers[i]),
    decreases readers.len(),
{
    if readers.len() > 0 {
        let front = readers.drop_last();
        let last = readers.len() - 1;
        assert(forall|i: int| 0 <= i < last ==> #[trigger] readers[i] == front[i]);
        reader_faults_mean_moves(store, front);
        assert(reader_fault(store, readers[last]) is None <==> reader_stands(store, readers[last]));
        if readers_fault(store, readers) is None {
            assert forall|i: int| 0 <= i < readers.len() implies reader_stands(
                store,
                #[trigger] readers[i],
            ) by {
                if i < last {
                    assert(reader_stands(store, front[i]));
                }
            }
        }
        if forall|i: int| 0 <= i < readers.len() ==> reader_stands(store, #[trigger] readers[i]) {
            assert(reader_stands(store, readers[last]));
            assert forall|i: int| 0 <= i < front.len() implies reader_stands(
                store,
                #[trigger] front[i],
            ) by {
                assert(reader_stands(store, readers[i]));
            }
        }
    }
}

/// An answer about a workstream is taken exactly where the workstream's context and what people
/// put in, every summary, every conversation and every message that was sent are still what they
/// were.
pub proof fn a_late_answer_is_refused(
    store: Store,
    workstream: Seq<char>,
    snapshot: Revisions,
    targets: Seq<Target>,
    readers: Seq<Reader>,
)
    requires
        forall|i: int| 0 <= i < targets.len() ==> 0 <= (#[trigger] targets[i]).from,
    ensures
        commit_fault(store, workstream, snapshot, targets, readers) is None <==> {
            &&& store.revisions(workstream).context == snapshot.context
            &&& store.revisions(workstream).input == snapshot.input
            &&& forall|i: int|
                0 <= i < targets.len() ==> target_stands(store, #[trigger] targets[i])
            &&& forall|i: int|
                0 <= i < readers.len() ==> reader_stands(store, #[trigger] readers[i])
        },
{
    target_faults_mean_moves(store, targets);
    reader_faults_mean_moves(store, readers);
}

} // verus!
