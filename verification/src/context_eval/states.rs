//! What holds of the state that a fixture starts with, and of how changes are described.
use crate::context_eval::corpus::{
    ContextItemExpectation, ContextQualityFixture, FixtureWorkstream, StructuralMutationExpectation,
};
use crate::context_eval::fixture::{
    agent_called, fixture_agent, is_state_of, kept, place_of, repeats, FixtureEnv,
};
use crate::context_eval::proposal::{expectation_text, item_text, proposal_text, Proposal};
use crate::domain::{Agent, SessionMessageRole};
use crate::text::{
    debug_form, joined, list_form, signed_decimal, small_letters, split_on, texts,
};
use vstd::prelude::*;

verus! {

// ---------------------------------------------------------------------------
// Fixtures
// ---------------------------------------------------------------------------

/// Who a message of a fixture is from.
pub open spec fn is_from(kind: Seq<char>, role: SessionMessageRole) -> bool {
    if kind == "user_message"@ {
        role == SessionMessageRole::User
    } else {
        role == SessionMessageRole::Assistant
    }
}

/// A fixture starts with its own conversation, message by message in their order and under the ids
/// that they were given: who says it, what is said, how a prompt names it, and how far its source
/// has then been read.
pub proof fn a_fixture_starts_with_its_conversation(
    env: FixtureEnv,
    f: ContextQualityFixture,
    session_id: Seq<char>,
    ids: Seq<Seq<char>>,
    now: Seq<char>,
    i: int,
)
    requires
        is_state_of(env, f, session_id, ids, now),
    ensures
        env.store.messages@.len() == f.input.events@.len(),
        env.seeded@.len() == f.input.events@.len(),
        env.ref_map@.len() == f.input.events@.len(),
        0 <= i < f.input.events@.len() ==> {
            let e = f.input.events@[i];
            let m = env.store.messages@[i];
            let s = env.seeded@[i];
            let r = env.ref_map@[i];
            let number = signed_decimal(e.sequence as int);
            &&& m.id@ == ids[i]
            &&& m.session_id@ == session_id
            &&& m.content@ == e.text@
            &&& is_from(e.kind@, m.role)
            &&& m.sequence == i + 1
            &&& m.ts is None
            &&& m.source_message_id matches Some(id) && id@ == "ev-"@ + f.name@ + "-"@ + number
            &&& s.message.content@ == e.text@
            &&& s.message.role == m.role
            &&& s.message.source_position@ == "line:"@ + number
            &&& s.message.source_message_id matches Some(id) && id@ == "ev-"@ + f.name@ + "-"@
                + number
            &&& s.cursor.file_identity@ == "eval-"@ + f.name@
            &&& s.cursor.byte_offset == e.sequence as u64
            &&& s.cursor.last_seen_size == e.sequence as u64
            &&& s.cursor.generation == 0
            &&& r.short_ref@ == "#"@ + number
            &&& r.message_id@ == ids[i]
            &&& r.sequence == i + 1
            &&& r.role == m.role
        },
        env.store.reading(session_id) == (0i64, f.input.events@.len() as i64),
{
    if 0 <= i < f.input.events@.len() {
        let e = f.input.events@[i];
        assert(crate::context_eval::fixture::is_message_of(
            env.session_messages@[i],
            f.name@,
            session_id,
            e,
            ids[i],
            i + 1,
        ));
        assert(crate::context_eval::fixture::is_seed_of(env.seeded@[i], f.name@, e));
        assert(crate::context_eval::fixture::is_ref_of(env.ref_map@[i], e, ids[i], i + 1));
        let s = env.seeded@[i];
        assert(s.message.deep_view().source_message_id == s.message.source_message_id.deep_view());
        assert(s.cursor.deep_view().byte_offset == s.cursor.byte_offset as int);
    }
}

/// A fixture starts with its own items as they are told, in their order, as if a person had written
/// them, and with no summary, no reading by a workstream and no contradiction.
pub proof fn a_fixture_starts_with_its_items(
    env: FixtureEnv,
    f: ContextQualityFixture,
    session_id: Seq<char>,
    ids: Seq<Seq<char>>,
    now: Seq<char>,
    i: int,
)
    requires
        is_state_of(env, f, session_id, ids, now),
    ensures
        env.store.items@.len() == f.input.initial_context@.len(),
        0 <= i < f.input.initial_context@.len() ==> {
            let x = f.input.initial_context@[i];
            let row = env.store.items@[i];
            &&& row.item.id@ == x.id@
            &&& row.item.workstream_id@ == x.workstream_id@
            &&& row.item.kind@ == x.kind@
            &&& row.item.status@ == x.status@
            &&& row.item.authority@ == x.authority@
            &&& row.item.created_by@ == "setup"@
            &&& row.revision.item_id@ == x.id@
            &&& row.revision.title@ == x.title@
            &&& row.revision.content@ == x.content@
            &&& row.revision.id@ == "rev-init-"@ + x.id@
            &&& row.revision.source_type matches Some(t) && t@ == "user_edit"@
            &&& row.revision.created_at@ == now
        },
        env.store.conflicts@.len() == 0,
        env.store.contexts@.len() == 0,
        env.store.frontiers@.len() == 0,
        env.store.states@.len() == 0,
{
    if 0 <= i < f.input.initial_context@.len() {
        assert(crate::context_eval::fixture::is_item_of(
            env.store.items@[i],
            f.input.initial_context@[i],
            now,
        ));
    }
}

/// A fixture has one session, of the agent that it names, which nobody owns yet; its owner is to be
/// the first workstream. Its workstreams stand as they are told, active and not archived.
pub proof fn a_fixture_starts_with_its_session(
    env: FixtureEnv,
    f: ContextQualityFixture,
    session_id: Seq<char>,
    ids: Seq<Seq<char>>,
    now: Seq<char>,
    i: int,
)
    requires
        is_state_of(env, f, session_id, ids, now),
    ensures
        env.store.sessions@.len() == 1,
        env.store.sessions@[0] == env.session,
        env.session.id@ == session_id,
        env.session.agent == fixture_agent(f.input.session.agent@),
        env.session.title matches Some(t) && t@ == f.input.session.title@,
        env.session.root_agent_session_id@ == "as-"@ + f.name@,
        env.session.owner_workstream_id is None,
        env.session.trashed_at is None,
        f.input.workstreams@.len() > 0,
        env.owner_workstream_id@ == f.input.workstreams@[0].id@,
        env.member.session_id@ == session_id,
        env.member.source_path@ == "/tmp/"@ + f.name@ + ".jsonl"@,
        env.member.source_kind@ == "eval_fixture"@,
        env.store.workstreams@.len() == kept(f.input.workstreams@).len(),
        0 <= i < env.store.workstreams@.len() ==> {
            let w = env.store.workstreams@[i];
            let x = kept(f.input.workstreams@)[i];
            &&& w.id@ == x.id@
            &&& w.title@ == x.title@
            &&& w.description@ == x.description@
            &&& w.lifecycle@ == "active"@
            &&& w.visibility@ == "normal"@
        },
{
    if 0 <= i < env.store.workstreams@.len() {
        assert(crate::context_eval::fixture::is_row_of(
            env.store.workstreams@[i],
            kept(f.input.workstreams@)[i],
            now,
        ));
    }
}

/// Workstream `i` is the last of its id.
pub open spec fn last_of_id(list: Seq<FixtureWorkstream>, id: Seq<char>, i: int) -> bool {
    &&& 0 <= i < list.len()
    &&& list[i].id@ == id
    &&& forall|k: int| i < k < list.len() ==> (#[trigger] list[k]).id@ != id
}

proof fn the_place_is_the_last(list: Seq<FixtureWorkstream>, id: Seq<char>)
    ensures
        forall|i: int| #[trigger] last_of_id(list, id, i) ==> place_of(list, id) == Some(i),
        (forall|i: int| 0 <= i < list.len() ==> (#[trigger] list[i]).id@ != id) ==> place_of(
            list,
            id,
        ) is None,
    decreases list.len(),
{
    if list.len() > 0 {
        let front = list.drop_last();
        the_place_is_the_last(front, id);
        assert forall|i: int| #[trigger] last_of_id(list, id, i) implies place_of(list, id)
            == Some(i) by {
            if i < front.len() {
                assert(list[front.len() as int].id@ != id);
                assert forall|k: int| i < k < front.len() implies (#[trigger] front[k]).id@
                    != id by {
                    assert(front[k] == list[k]);
                }
                assert(front[i] == list[i]);
                assert(last_of_id(front, id, i));
            }
        }
        if forall|i: int| 0 <= i < list.len() ==> (#[trigger] list[i]).id@ != id {
            assert(list[front.len() as int].id@ != id);
            assert forall|i: int| 0 <= i < front.len() implies (#[trigger] front[i]).id@ != id by {
                assert(front[i] == list[i]);
            }
        }
    }
}

/// A workstream of a new id is added; one of an id that is there takes its place.
pub proof fn one_more_workstream(list: Seq<FixtureWorkstream>, w: FixtureWorkstream, i: int)
    ensures
        kept(Seq::empty()) == Seq::<FixtureWorkstream>::empty(),
        last_of_id(kept(list), w.id@, i) ==> kept(list.push(w)) == kept(list).update(i, w),
        (forall|k: int| 0 <= k < kept(list).len() ==> (#[trigger] kept(list)[k]).id@ != w.id@)
            ==> kept(list.push(w)) == kept(list).push(w),
{
    assert(list.push(w).drop_last() =~= list);
    the_place_is_the_last(kept(list), w.id@);
}

/// An agent is called by its own name, in any case, or by one that it also goes by; what is no
/// agent's name is Codex's.
pub proof fn which_agent_a_fixture_names(name: Seq<char>)
    ensures
        fixture_agent(name) == agent_called(small_letters(name)),
        name == "codex"@ ==> agent_called(name) == Agent::Codex,
        name == "pi"@ ==> agent_called(name) == Agent::Pi,
        name == "qoder"@ || name == "qcoder"@ ==> agent_called(name) == Agent::Qoder,
        name == "autoclaw"@ || name == "openclaw"@ ==> agent_called(name) == Agent::AutoClaw,
        name == "workbuddy"@ || name == "work_buddy"@ ==> agent_called(name) == Agent::WorkBuddy,
        name == "dsh"@ || name == "deepseek_harness"@ ==> agent_called(name) == Agent::Dsh,
        name == "zcode"@ || name == "z_code"@ ==> agent_called(name) == Agent::ZCode,
        name == "claude_code"@ ==> agent_called(name) == Agent::ClaudeCode,
{
    reveal_strlit("codex");
    reveal_strlit("pi");
    reveal_strlit("qoder");
    reveal_strlit("qcoder");
    reveal_strlit("autoclaw");
    reveal_strlit("openclaw");
    reveal_strlit("workbuddy");
    reveal_strlit("work_buddy");
    reveal_strlit("dsh");
    reveal_strlit("deepseek_harness");
    reveal_strlit("zcode");
    reveal_strlit("z_code");
    reveal_strlit("claude_code");
    let own = Agent::ClaudeCode.name();
    assert(own == "claude_code"@);
    let a = own.take(6);
    let b = own.skip(7);
    assert(own =~= a + seq!['_'] + b);
    assert(!a.contains('_')) by {
        assert forall|k: int| 0 <= k < a.len() implies a[k] != '_' by {
            assert(a[k] == own[k]);
            assert(k == 0 || k == 1 || k == 2 || k == 3 || k == 4 || k == 5);
        }
    }
    crate::text::a_separator_parts(a, b, '_');
    let first = split_on(own, '_')[0];
    assert(first == a);
    assert(first.len() == 6 && first[0] == 'c' && first[1] == 'l');
    assert("codex"@.len() == 5 && "codex"@[0] == 'c');
    assert("claude_code"@.len() == 11);
    assert("pi"@.len() == 2);
    assert("qoder"@[0] == 'q' && "qcoder"@[0] == 'q');
    assert("autoclaw"@[0] == 'a' && "openclaw"@[0] == 'o');
    assert("workbuddy"@[0] == 'w' && "work_buddy"@[0] == 'w');
    assert("dsh"@[0] == 'd' && "deepseek_harness"@[0] == 'd');
    assert("zcode"@[0] == 'z' && "z_code"@[0] == 'z');
    assert("pi"@[0] == 'p');
}

/// A fixture in which two messages have one number cannot be started.
pub proof fn when_messages_repeat(f: ContextQualityFixture, i: int, j: int)
    ensures
        0 <= i < j < f.input.events@.len() && f.input.events@[i].sequence
            == f.input.events@[j].sequence ==> repeats(f.input.events@),
        (forall|a: int, b: int|
            0 <= a < b < f.input.events@.len() ==> (#[trigger] f.input.events@[a]).sequence != (
            #[trigger] f.input.events@[b]).sequence) ==> !repeats(f.input.events@),
{
}

// ---------------------------------------------------------------------------
// Descriptions
// ---------------------------------------------------------------------------

/// The part that tells a value under a label, where there is one.
pub open spec fn part(label: Seq<char>, value: Option<Seq<char>>) -> Seq<Seq<char>> {
    match value {
        Some(v) => seq![label + v],
        None => Seq::empty(),
    }
}

/// The part that tells a list under a label, where it holds anything.
pub open spec fn list_part(label: Seq<char>, list: Seq<String>) -> Seq<Seq<char>> {
    if list.len() == 0 {
        Seq::empty()
    } else {
        seq![label + list_form(texts(list))]
    }
}

/// The numbers are those of the messages, each with its sign.
pub open spec fn are_numbers(told: Seq<Seq<char>>, v: Seq<i64>) -> bool {
    &&& told.len() == v.len()
    &&& forall|i: int|
        0 <= i < v.len() ==> #[trigger] told[i] == "#"@ + signed_decimal(v[i] as int)
}

/// What is asked of a change is told part by part; what is not asked is left out.
pub proof fn an_expectation_is_told(e: StructuralMutationExpectation, cited: Seq<Seq<char>>)
    requires
        are_numbers(cited, e.source_events@),
    ensures
        ({
            let cites: Option<Seq<char>> = if e.source_events@.len() > 0 {
                Some(joined(cited, ","@))
            } else {
                None
            };
            let parts = list_part("op∈"@, e.op@) + part("ws="@, e.workstream_id.deep_view())
                + list_part("kind∈"@, e.item_kind@) + part("item="@, e.item_id.deep_view())
                + list_part("title⊇"@, e.title_contains@) + list_part(
                "content⊇"@,
                e.content_contains@,
            ) + part("authority="@, e.authority.deep_view()) + part("cites="@, cites);
            &&& parts.len() == 0 ==> expectation_text(e) == "(unconstrained)"@
            &&& parts.len() > 0 ==> expectation_text(e) == joined(parts, " "@)
        }),
{
    assert(cited =~= crate::context_eval::proposal::numbers(e.source_events@));
    let cites: Option<Seq<char>> = if e.source_events@.len() > 0 {
        Some(joined(cited, ","@))
    } else {
        None
    };
    let parts = list_part("op∈"@, e.op@) + part("ws="@, e.workstream_id.deep_view()) + list_part(
        "kind∈"@,
        e.item_kind@,
    ) + part("item="@, e.item_id.deep_view()) + list_part("title⊇"@, e.title_contains@) + list_part(
        "content⊇"@,
        e.content_contains@,
    ) + part("authority="@, e.authority.deep_view()) + part("cites="@, cites);
    assert(parts.len() == 0 || expectation_text(e) == joined(parts, " "@));
}

/// A change is told by what it does and each thing that it names; an empty title is left out.
pub proof fn a_change_is_told(p: Proposal)
    ensures
        ({
            let title: Option<Seq<char>> = if p.title.len() > 0 {
                Some(debug_form(p.title))
            } else {
                None
            };
            proposal_text(p) == "("@ + joined(
                seq!["op="@ + p.op] + part("ws="@, p.workstream_id) + part("kind="@, p.item_kind)
                    + part("item="@, p.item_id) + part("title="@, title) + part(
                    "authority="@,
                    p.authority,
                ),
                " "@,
            ) + ")"@
        }),
{
}

/// What is asked of an item is told by its kind and its title; nothing asked is told as any item.
pub proof fn an_expected_item_is_told(e: ContextItemExpectation)
    ensures
        ({
            let parts = part("kind="@, e.kind.deep_view()) + list_part(
                "title⊇"@,
                e.title_contains@,
            );
            &&& parts.len() == 0 ==> item_text(e) == "(any core item)"@
            &&& parts.len() > 0 ==> item_text(e) == joined(parts, " "@)
        }),
{
}

} // verus!
