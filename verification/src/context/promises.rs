//! What an update asks for, whom it takes in, and what is shown of a context, told field by field.
use crate::bytes::byte_len;
use crate::context::launch::ContextLaunchConfig;
use crate::context::parts::{
    goes_on_from, part_of, readers_among, targets_among, unseen, Part, Reader, Target,
    MESSAGE_LIMIT,
};
use crate::context::select::{
    room, session_input, shown_reader, shown_target, target_messages, workstream_input,
    workstream_room,
};
use crate::context::session::{uncovered, SessionAsk};
use crate::context::views::{
    behind, behind_count, core_of, section, sections, session_picture, workstream_pending,
    ContextSection,
};
use crate::context::workstream::{item_ids, item_line, item_lines, target_ids, WorkstreamAsk};
use crate::store::{
    a_choice_holds_what_is_wanted, at_most, items_of, messages_behind, sessions_of, ContextRow,
    ItemRow, Session, SessionMessage, Store,
};
use crate::sync::{Input, InputLimits, Prompt, PromptInput, PromptSession};
use crate::text::texts;
use vstd::prelude::*;

verus! {

// ---------------------------------------------------------------------------
// One session
// ---------------------------------------------------------------------------

/// Where the reading of a conversation goes on behind a summary: behind what it covers, where it
/// is of the present conversation, else at the beginning.
pub open spec fn behind_summary(summary: Option<ContextRow>, generation: i64) -> int {
    if summary is Some && summary->0.ingest_generation == generation {
        summary->0.processed_through_seq as int
    } else {
        0
    }
}

/// A prompt shows the summary of the present conversation with its revision, and no other.
pub open spec fn shows_summary(
    s: PromptSession,
    summary: Option<ContextRow>,
    generation: i64,
) -> bool {
    if summary is Some && summary->0.ingest_generation == generation {
        &&& s.existing matches Some(f) && f.deep_view() == summary->0.fields
        &&& s.existing_revision == Some(summary->0.revision)
    } else {
        s.existing is None && s.existing_revision is None
    }
}

proof fn an_entry_is_shown(i: PromptInput, input: Input, k: int)
    requires
        i.deep_view() == input,
        0 <= k < i.sessions@.len(),
    ensures
        input.sessions.len() == i.sessions@.len(),
        input.sessions[k].session_id == i.sessions@[k].session_id@,
        input.sessions[k].is_target == i.sessions@[k].is_target,
        input.sessions[k].existing == i.sessions@[k].existing.deep_view(),
        input.sessions[k].existing_revision == i.sessions@[k].existing_revision,
        input.sessions[k].messages == i.sessions@[k].messages@,
{
    assert(i.sessions.deep_view()[k] == i.sessions@[k].deep_view());
}

/// The agent that is asked about a session sees the summary of the present conversation, where
/// there is one, with its revision, and behind it the first messages that the summary does not
/// cover, those of the session alone; and the answer is held to that revision, that conversation
/// and those messages.
pub proof fn the_agent_sees_the_present_summary<F: Fn(&PromptInput) -> Prompt>(
    ask: SessionAsk,
    store: Store,
    session: Seq<char>,
    title: Option<Seq<char>>,
    launch: ContextLaunchConfig,
    render: F,
    limits: InputLimits,
)
    requires
        crate::context::session::asks(ask, store, session, title, launch, render, limits),
    ensures
        ({
            let summary = store.summary(session);
            let generation = store.reading(session).0;
            let from = behind_summary(summary, generation);
            let news = messages_behind(store.messages@, session, from);
            &&& exists|i: PromptInput|
                {
                    &&& #[trigger] call_ensures(render, (&i,), ask.prompt)
                    &&& i.sessions@.len() == 1
                    &&& i.sessions@[0].session_id@ == session
                    &&& i.sessions@[0].is_target
                    &&& shows_summary(i.sessions@[0], summary, generation)
                    &&& i.sessions@[0].messages@ == i.messages@
                    &&& i.messages@.len() == ask.prefix@.len()
                    &&& i.messages@.is_prefix_of(news)
                    &&& i.item_lines@.len() == 0
                    &&& i.workstream_description@.len() == 0
                    &&& title matches Some(t) ==> i.workstream_title@ == "仅更新该 Session 摘要（"@
                        + t + "）"@
                }
            &&& ask.session_id@ == session
            &&& 1 <= ask.prefix@.len() <= news.len()
            &&& ask.prefix@.len() <= MESSAGE_LIMIT
            &&& forall|k: int|
                0 <= k < ask.prefix@.len() ==> (#[trigger] ask.prefix@[k])@ == news[k].id@
            &&& ask.expect_revision == (match summary {
                Some(c) => c.revision,
                None => 0,
            })
            &&& ask.generation == generation
            &&& ask.from == from
            &&& ask.upper == from + ask.prefix@.len()
            &&& ask.latest_message_seq == store.reading(session).1
            &&& launch.agent == Some(ask.cli.agent)
            &&& byte_len(ask.prompt.text@) > 0 ==> byte_len(ask.prompt.text@)
                + limits.session_reserve <= limits.input_limit
        }),
{
    let summary = store.summary(session);
    let generation = store.reading(session).0;
    let from = behind_summary(summary, generation);
    let news = messages_behind(store.messages@, session, from);
    let messages = uncovered(store, session);
    let n = ask.prefix@.len() as int;
    let input = session_input(session, title, summary, generation, messages.take(n));
    assert(messages == at_most(news, MESSAGE_LIMIT as nat));
    let i = choose|i: PromptInput|
        i.deep_view() == input && #[trigger] call_ensures(render, (&i,), ask.prompt);
    assert(input.sessions.len() == 1);
    assert(i.sessions.deep_view().len() == i.sessions@.len());
    an_entry_is_shown(i, input, 0);
    assert(texts(i.item_lines@).len() == i.item_lines@.len());
    assert(call_ensures(render, (&i,), ask.prompt));
    assert forall|k: int| 0 <= k < n implies (#[trigger] ask.prefix@[k])@ == news[k].id@ by {
        assert(texts(ask.prefix@)[k] == ask.prefix@[k]@);
    }
}

/// The messages that a session's summary does not cover are its own with a later number than the
/// summary covers, all of them while they are not too many.
pub proof fn what_a_summary_does_not_cover(store: Store, session: Seq<char>, row: SessionMessage)
    ensures
        ({
            let from = behind_summary(store.summary(session), store.reading(session).0);
            let news = messages_behind(store.messages@, session, from);
            &&& uncovered(store, session).is_prefix_of(news)
            &&& news.len() <= MESSAGE_LIMIT ==> (uncovered(store, session).contains(row)
                <==> store.messages@.contains(row) && row.session_id@ == session && row.sequence
                > from)
            &&& uncovered(store, session).contains(row) ==> store.messages@.contains(row)
                && row.session_id@ == session && row.sequence > from
            &&& uncovered(store, session).len() == 0 <==> news.len() == 0
        }),
{
    broadcast use a_choice_holds_what_is_wanted;

    let from = behind_summary(store.summary(session), store.reading(session).0);
    let news = messages_behind(store.messages@, session, from);
    assert(uncovered(store, session) == at_most(news, MESSAGE_LIMIT as nat));
    assert(news.contains(row) <==> store.messages@.contains(row) && row.session_id@ == session
        && row.sequence > from);
    if uncovered(store, session).contains(row) {
        let k = choose|k: int|
            0 <= k < uncovered(store, session).len() && uncovered(store, session)[k] == row;
        assert(news[k] == row);
    }
}

/// What is kept free of a limit is not used, and where less than that is there nothing is.
pub proof fn the_reserve_is_kept_free(limits: InputLimits, sessions: nat)
    ensures
        ({
            let reserve = limits.workstream_reserve + limits.session_reserve * sessions;
            &&& reserve <= limits.input_limit ==> workstream_room(limits, sessions) + reserve
                == limits.input_limit
            &&& reserve > limits.input_limit ==> workstream_room(limits, sessions) == 0
            &&& limits.session_reserve <= limits.input_limit ==> room(
                limits.input_limit,
                limits.session_reserve as int,
            ) + limits.session_reserve == limits.input_limit
            &&& limits.session_reserve > limits.input_limit ==> room(
                limits.input_limit,
                limits.session_reserve as int,
            ) == 0
        }),
{
}

// ---------------------------------------------------------------------------
// A workstream
// ---------------------------------------------------------------------------

/// The messages of targets stand one session behind the other.
pub proof fn messages_of_targets_stand_in_order(a: Seq<Target>, b: Seq<Target>, t: Target)
    ensures
        target_messages(a + b) == target_messages(a) + target_messages(b),
        target_messages(seq![t]) == t.messages,
        target_messages(Seq::<Target>::empty()).len() == 0,
    decreases b.len(),
{
    reveal_with_fuel(target_messages, 2);
    assert(seq![t].drop_last() =~= Seq::<Target>::empty());
    assert(target_messages(seq![t]) =~= t.messages);
    if b.len() == 0 {
        assert(a + b =~= a);
        assert(target_messages(a) + target_messages(b) =~= target_messages(a));
    } else {
        messages_of_targets_stand_in_order(a, b.drop_last(), t);
        assert((a + b).drop_last() =~= a + b.drop_last());
        assert((a + b).last() == b.last());
        assert(target_messages(a + b) =~= target_messages(a) + target_messages(b));
    }
}

/// The agent that is asked about a workstream sees its title and description and every item in
/// force, then every target with the summary of its present conversation and the messages that
/// are new, then every session that only shows its summary: an empty one where the conversation
/// is gone. Only those targets may be answered about, and only those items may be changed.
pub proof fn the_agent_sees_the_workstream<F: Fn(&PromptInput) -> Prompt>(
    ask: WorkstreamAsk,
    store: Store,
    workstream: Seq<char>,
    title: Seq<char>,
    description: Seq<char>,
    launch: ContextLaunchConfig,
    render: F,
    limits: InputLimits,
)
    requires
        crate::context::workstream::asks(
            ask,
            store,
            workstream,
            title,
            description,
            launch,
            render,
            limits,
        ),
    ensures
        ({
            let targets = ask.included.deep_view();
            let readers = ask.read_only.deep_view();
            let n = targets.len() as int;
            let items = items_of(store.items@, workstream);
            &&& exists|i: PromptInput|
                {
                    &&& #[trigger] call_ensures(render, (&i,), ask.prompt)
                    &&& i.workstream_title@ == title
                    &&& i.workstream_description@ == description
                    &&& i.item_lines@.len() == items.len()
                    &&& forall|k: int|
                        0 <= k < items.len() ==> (#[trigger] i.item_lines@[k])@ == "- item_id="@
                            + items[k].item.id@ + " | "@ + items[k].item.kind@ + " | "@
                            + items[k].revision.title@
                    &&& i.messages@ == target_messages(targets)
                    &&& i.sessions@.len() == n + readers.len()
                    &&& forall|k: int|
                        0 <= k < n ==> {
                            &&& (#[trigger] i.sessions@[k]).session_id@ == targets[k].session.id@
                            &&& i.sessions@[k].is_target
                            &&& shows_summary(
                                i.sessions@[k],
                                targets[k].existing,
                                targets[k].generation,
                            )
                            &&& i.sessions@[k].messages@ == targets[k].messages
                        }
                    &&& forall|k: int|
                        n <= k < n + readers.len() ==> {
                            let r = readers[k - n];
                            let s = #[trigger] i.sessions@[k];
                            &&& s.session_id@ == r.session_id
                            &&& !s.is_target
                            &&& s.messages@.len() == 0
                            &&& r.invalidate_context ==> s.existing is Some
                                && s.existing->0.summary_current_state@.len() == 0
                                && s.existing->0.decisions@.len() == 0
                                && s.existing->0.open_questions@.len() == 0
                                && s.existing->0.next_steps@.len() == 0
                            &&& !r.invalidate_context ==> s.existing.deep_view() == (
                            match r.context {
                                Some(c) => Some(c.fields),
                                None => None,
                            })
                            &&& s.existing_revision == (match r.context {
                                Some(c) => Some(c.revision),
                                None => None,
                            })
                        }
                }
            &&& ask.workstream_id@ == workstream
            &&& ask.expected_targets@.len() == n
            &&& forall|k: int|
                0 <= k < n ==> (#[trigger] ask.expected_targets@[k])@ == targets[k].session.id@
            &&& ask.allowed_items@.len() == items.len()
            &&& forall|k: int|
                0 <= k < items.len() ==> (#[trigger] ask.allowed_items@[k])@ == items[k].item.id@
            &&& ask.snapshot.deep_view() == store.revisions(workstream)
            &&& launch.agent == Some(ask.cli.agent)
        }),
{
    let targets = ask.included.deep_view();
    let readers = ask.read_only.deep_view();
    let n = targets.len() as int;
    let items = items_of(store.items@, workstream);
    let lines = item_lines(items);
    let input = workstream_input(title, description, lines, targets, readers);
    let i = choose|i: PromptInput|
        i.deep_view() == input && #[trigger] call_ensures(render, (&i,), ask.prompt);
    assert(call_ensures(render, (&i,), ask.prompt));
    assert(i.sessions.deep_view().len() == i.sessions@.len());
    assert(texts(i.item_lines@).len() == i.item_lines@.len());
    assert forall|k: int| 0 <= k < items.len() implies (#[trigger] i.item_lines@[k])@
        == "- item_id="@ + items[k].item.id@ + " | "@ + items[k].item.kind@ + " | "@
        + items[k].revision.title@ by {
        assert(texts(i.item_lines@)[k] == i.item_lines@[k]@);
        assert(lines[k] == item_line(items[k]));
    }
    assert forall|k: int| 0 <= k < n implies {
        &&& (#[trigger] i.sessions@[k]).session_id@ == targets[k].session.id@
        &&& i.sessions@[k].is_target
        &&& shows_summary(i.sessions@[k], targets[k].existing, targets[k].generation)
        &&& i.sessions@[k].messages@ == targets[k].messages
    } by {
        an_entry_is_shown(i, input, k);
        assert(input.sessions[k] == shown_target(targets[k]));
    }
    assert forall|k: int| n <= k < n + readers.len() implies {
        let r = readers[k - n];
        let s = #[trigger] i.sessions@[k];
        &&& s.session_id@ == r.session_id
        &&& !s.is_target
        &&& s.messages@.len() == 0
        &&& r.invalidate_context ==> s.existing is Some
            && s.existing->0.summary_current_state@.len() == 0
            && s.existing->0.decisions@.len() == 0 && s.existing->0.open_questions@.len() == 0
            && s.existing->0.next_steps@.len() == 0
        &&& !r.invalidate_context ==> s.existing.deep_view() == (match r.context {
            Some(c) => Some(c.fields),
            None => None,
        })
        &&& s.existing_revision == (match r.context {
            Some(c) => Some(c.revision),
            None => None,
        })
    } by {
        an_entry_is_shown(i, input, k);
        assert(input.sessions[k] == shown_reader(readers[k - n]));
        if readers[k - n].invalidate_context {
            let f = i.sessions@[k].existing->0;
            assert(f.deep_view().decisions.len() == 0);
            assert(texts(f.decisions@).len() == f.decisions@.len());
            assert(texts(f.open_questions@).len() == f.open_questions@.len());
            assert(texts(f.next_steps@).len() == f.next_steps@.len());
        }
    }
    assert(texts(ask.expected_targets@).len() == ask.expected_targets@.len());
    assert(texts(ask.allowed_items@).len() == ask.allowed_items@.len());
    assert forall|k: int| 0 <= k < n implies (#[trigger] ask.expected_targets@[k])@
        == targets[k].session.id@ by {
        assert(texts(ask.expected_targets@)[k] == ask.expected_targets@[k]@);
        assert(target_ids(targets)[k] == targets[k].session.id@);
    }
    assert forall|k: int| 0 <= k < items.len() implies (#[trigger] ask.allowed_items@[k])@
        == items[k].item.id@ by {
        assert(texts(ask.allowed_items@)[k] == ask.allowed_items@[k]@);
        assert(item_ids(items)[k] == items[k].item.id@);
    }
}

/// Where a workstream goes on with a session: behind what it has taken in, where that is of the
/// present conversation and the summary is too, else at the beginning.
pub open spec fn behind_frontier(store: Store, workstream: Seq<char>, session: Seq<char>) -> int {
    let generation = store.reading(session).0;
    let fresh = store.summary(session) matches Some(c) ==> c.ingest_generation == generation;
    if fresh && store.frontier(workstream, session) is Some && store.frontier(
        workstream,
        session,
    )->0.ingest_generation == generation {
        store.frontier(workstream, session)->0.consumed_through_seq as int
    } else {
        0
    }
}

/// A session with messages behind what the workstream has taken in is read, and those messages
/// are what is read of it. A session without any only shows its summary: where its conversation
/// was replaced, or where its summary was written again since. Any other session is no part of
/// the update.
pub proof fn what_a_session_is_to_an_update(store: Store, workstream: Seq<char>, s: Session)
    ensures
        ({
            let id = s.id@;
            let (generation, latest) = store.reading(id);
            let from = behind_frontier(store, workstream, id);
            let news = messages_behind(store.messages@, id, from);
            let summary = store.summary(id);
            let frontier = store.frontier(workstream, id);
            let replaced = (summary is Some && summary->0.ingest_generation != generation) || (
            frontier is Some && frontier->0.ingest_generation != generation) || (frontier is None
                && latest > 0);
            match part_of(store, workstream, s) {
                Part::Target(t) => {
                    &&& news.len() > 0
                    &&& t.session == s
                    &&& t.existing == summary
                    &&& t.generation == generation
                    &&& t.from == from
                    &&& t.messages.is_prefix_of(news)
                    &&& news.len() <= MESSAGE_LIMIT ==> t.messages == news
                    &&& t.messages.len() > 0
                },
                Part::Reader(r) => {
                    &&& news.len() == 0
                    &&& r.session_id == id
                    &&& r.context == summary
                    &&& r.generation == generation
                    &&& r.latest_message_seq == latest
                    &&& r.invalidate_context == replaced
                    &&& !replaced ==> summary is Some && summary->0.revision > (match frontier {
                        Some(f) => f.session_context_revision,
                        None => 0,
                    })
                },
                Part::Nothing => {
                    &&& news.len() == 0
                    &&& !replaced
                    &&& summary matches Some(c) ==> c.revision <= (match frontier {
                        Some(f) => f.session_context_revision,
                        None => 0,
                    })
                },
            }
        }),
{
    let id = s.id@;
    let from = behind_frontier(store, workstream, id);
    let news = messages_behind(store.messages@, id, from);
    assert(goes_on_from(store, workstream, id) == from);
    assert(unseen(store, workstream, id) == at_most(news, MESSAGE_LIMIT as nat));
}

/// The sessions of an update are taken each on its own, in order.
pub proof fn sessions_are_taken_in_order(
    store: Store,
    workstream: Seq<char>,
    a: Seq<Session>,
    b: Seq<Session>,
    s: Session,
)
    ensures
        targets_among(store, workstream, a + b) == targets_among(store, workstream, a)
            + targets_among(store, workstream, b),
        readers_among(store, workstream, a + b) == readers_among(store, workstream, a)
            + readers_among(store, workstream, b),
        targets_among(store, workstream, seq![s]) == (match part_of(store, workstream, s) {
            Part::Target(t) => seq![t],
            _ => Seq::empty(),
        }),
        readers_among(store, workstream, seq![s]) == (match part_of(store, workstream, s) {
            Part::Reader(r) => seq![r],
            _ => Seq::empty(),
        }),
    decreases b.len(),
{
    reveal_with_fuel(targets_among, 2);
    reveal_with_fuel(readers_among, 2);
    assert(seq![s].drop_last() =~= Seq::<Session>::empty());
    assert(targets_among(store, workstream, seq![s]) =~= (match part_of(store, workstream, s) {
        Part::Target(t) => seq![t],
        _ => Seq::empty(),
    }));
    assert(readers_among(store, workstream, seq![s]) =~= (match part_of(store, workstream, s) {
        Part::Reader(r) => seq![r],
        _ => Seq::empty(),
    }));
    if b.len() == 0 {
        assert(a + b =~= a);
    } else {
        sessions_are_taken_in_order(store, workstream, a, b.drop_last(), s);
        assert((a + b).drop_last() =~= a + b.drop_last());
        assert((a + b).last() == b.last());
    }
    assert(targets_among(store, workstream, a + b) =~= targets_among(store, workstream, a)
        + targets_among(store, workstream, b));
    assert(readers_among(store, workstream, a + b) =~= readers_among(store, workstream, a)
        + readers_among(store, workstream, b));
}

// ---------------------------------------------------------------------------
// What is shown
// ---------------------------------------------------------------------------

/// Items are shown one by one, in their order, each as what it says.
pub proof fn a_section_tells_its_item(rows: Seq<ItemRow>, k: int)
    ensures
        sections(rows).len() == rows.len(),
        0 <= k < rows.len() ==> {
            let s = sections(rows)[k];
            &&& s.kind@ == rows[k].item.kind@
            &&& s.title@ == rows[k].revision.title@
            &&& s.content@ == rows[k].revision.content@
            &&& s.authority@ == rows[k].item.authority@
            &&& s.source_ref == rows[k].revision.source_ref
            &&& s.item_id@ == rows[k].item.id@
            &&& s.revision_id == Some(rows[k].revision.id)
        },
{
}

/// What stands at the core of a context are the items of the given kinds, each as what it says.
pub proof fn the_core_tells_the_items_of_its_kinds(
    rows: Seq<ItemRow>,
    kinds: Seq<String>,
    s: ContextSection,
)
    ensures
        core_of(rows, kinds).contains(s) <==> exists|row: ItemRow, k: int|
            0 <= k < kinds.len() && #[trigger] rows.contains(row) && row.item.kind@ == (
            #[trigger] kinds[k])@ && s == (ContextSection {
                kind: row.item.kind,
                title: row.revision.title,
                content: row.revision.content,
                authority: row.item.authority,
                source_ref: row.revision.source_ref,
                item_id: row.item.id,
                revision_id: Some(row.revision.id),
            }),
    decreases kinds.len(),
{
    broadcast use a_choice_holds_what_is_wanted;

    if kinds.len() > 0 {
        let front = kinds.drop_last();
        let last = kinds.len() - 1;
        the_core_tells_the_items_of_its_kinds(rows, front, s);
        assert(forall|k: int| 0 <= k < last ==> #[trigger] kinds[k] == front[k]);
        let before = core_of(rows, front);
        let chosen = rows.filter(|r: ItemRow| r.item.kind@ == kinds.last()@);
        let added = sections(chosen);
        assert(core_of(rows, kinds) == before + added);
        assert(core_of(rows, kinds).contains(s) <==> before.contains(s) || added.contains(s)) by {
            if before.contains(s) {
                let j = choose|j: int| 0 <= j < before.len() && before[j] == s;
                assert((before + added)[j] == s);
            }
            if added.contains(s) {
                let j = choose|j: int| 0 <= j < added.len() && added[j] == s;
                assert((before + added)[before.len() + j] == s);
            }
            if (before + added).contains(s) {
                let j = choose|j: int|
                    0 <= j < (before + added).len() && (before + added)[j] == s;
                if j < before.len() {
                    assert(before[j] == s);
                } else {
                    assert(added[j - before.len()] == s);
                }
            }
        }
        if added.contains(s) {
            let j = choose|j: int| 0 <= j < added.len() && added[j] == s;
            assert(chosen.contains(chosen[j]));
            assert(rows.contains(chosen[j]) && chosen[j].item.kind@ == kinds[last]@);
            assert(s == section(chosen[j]));
        }
        if exists|row: ItemRow, k: int|
            0 <= k < kinds.len() && #[trigger] rows.contains(row) && row.item.kind@ == (
            #[trigger] kinds[k])@ && s == section(row) {
            let (row, k) = choose|row: ItemRow, k: int|
                0 <= k < kinds.len() && #[trigger] rows.contains(row) && row.item.kind@ == (
                #[trigger] kinds[k])@ && s == section(row);
            if k == last {
                assert(chosen.contains(row));
                let j = choose|j: int| 0 <= j < chosen.len() && chosen[j] == row;
                assert(added[j] == section(row));
            } else {
                assert(front[k] == kinds[k]);
            }
        }
        if before.contains(s) {
            let (row, k) = choose|row: ItemRow, k: int|
                0 <= k < front.len() && #[trigger] rows.contains(row) && row.item.kind@ == (
                #[trigger] front[k])@ && s == section(row);
            assert(kinds[k] == front[k]);
        }
    }
}

/// Items of the kinds that come first are shown first.
pub proof fn the_core_goes_kind_by_kind(rows: Seq<ItemRow>, a: Seq<String>, b: Seq<String>)
    ensures
        core_of(rows, a + b) == core_of(rows, a) + core_of(rows, b),
    decreases b.len(),
{
    if b.len() == 0 {
        assert(a + b =~= a);
    } else {
        the_core_goes_kind_by_kind(rows, a, b.drop_last());
        assert((a + b).drop_last() =~= a + b.drop_last());
        assert((a + b).last() == b.last());
    }
    assert(core_of(rows, a + b) =~= core_of(rows, a) + core_of(rows, b));
}

/// The context of a session shows what its summary says, how often it was written and when, and
/// how far it covers the present conversation. It is pending exactly where the conversation goes
/// further, or was replaced.
pub proof fn a_session_is_shown_as_it_is(store: Store, session: Seq<char>)
    ensures
        ({
            let p = session_picture(store, session);
            let summary = store.summary(session);
            let (generation, latest) = store.reading(session);
            let replaced = summary is Some && summary->0.ingest_generation != generation;
            &&& p.session_id == session
            &&& summary is Some ==> p.fields == Some(summary->0.fields) && p.revision
                == summary->0.revision && p.updated_at == Some(summary->0.updated_at)
            &&& summary is None ==> p.fields is None && p.revision == 0 && p.updated_at is None
            &&& p.ingest_generation == generation
            &&& p.latest_message_seq == latest
            &&& p.processed_through_seq == behind_summary(summary, generation)
            &&& p.pending <==> replaced || latest > behind_summary(summary, generation)
        }),
{
}

/// A workstream has not taken in all of a session exactly where its conversation was replaced,
/// goes further than what was taken in, or has a later summary.
pub proof fn a_session_is_behind_where_it_moved_on(
    store: Store,
    workstream: Seq<char>,
    session: Seq<char>,
)
    ensures
        ({
            let summary = store.summary(session);
            let (generation, latest) = store.reading(session);
            let frontier = store.frontier(workstream, session);
            behind(store, workstream, session) <==> {
                ||| summary is Some && summary->0.ingest_generation != generation
                ||| frontier is None && latest > 0
                ||| frontier is Some && frontier->0.ingest_generation != generation
                ||| frontier is Some && latest > frontier->0.consumed_through_seq
                ||| frontier is Some && frontier->0.session_context_revision < (match summary {
                    Some(c) => c.revision,
                    None => 0,
                })
            }
        }),
{
}

/// A workstream is pending exactly where people put something in that was not taken in, or one of
/// its sessions was not taken in whole; as many sessions are told as there are of those.
pub proof fn a_workstream_is_pending_where_a_session_is(
    store: Store,
    workstream: Seq<char>,
    a: Seq<Session>,
    b: Seq<Session>,
    s: Session,
)
    ensures
        behind_count(store, workstream, a + b) == behind_count(store, workstream, a)
            + behind_count(store, workstream, b),
        behind_count(store, workstream, seq![s]) == (if behind(store, workstream, s.id@) {
            1nat
        } else {
            0
        }),
        behind_count(store, workstream, b) > 0 <==> exists|i: int|
            0 <= i < b.len() && behind(store, workstream, (#[trigger] b[i]).id@),
        workstream_pending(store, workstream) <==> store.revisions(workstream).input
            > store.revisions(workstream).consumed_input || behind_count(
            store,
            workstream,
            sessions_of(store.sessions@, workstream),
        ) > 0,
    decreases b.len(),
{
    reveal_with_fuel(behind_count, 2);
    assert(seq![s].drop_last() =~= Seq::<Session>::empty());
    if b.len() == 0 {
        assert(a + b =~= a);
    } else {
        let front = b.drop_last();
        let last = b.len() - 1;
        a_workstream_is_pending_where_a_session_is(store, workstream, a, front, s);
        assert((a + b).drop_last() =~= a + front);
        assert((a + b).last() == b.last());
        assert(forall|i: int| 0 <= i < last ==> #[trigger] b[i] == front[i]);
        if behind(store, workstream, b[last].id@) {
            assert(behind(store, workstream, b[last].id@));
        } else if behind_count(store, workstream, b) > 0 {
            let i = choose|i: int|
                0 <= i < front.len() && behind(store, workstream, (#[trigger] front[i]).id@);
            assert(behind(store, workstream, b[i].id@));
        }
        if exists|i: int| 0 <= i < b.len() && behind(store, workstream, (#[trigger] b[i]).id@) {
            let i = choose|i: int|
                0 <= i < b.len() && behind(store, workstream, (#[trigger] b[i]).id@);
            if i < last {
                assert(behind(store, workstream, front[i].id@));
            }
        }
    }
}

} // verus!
