//! What the checks of a fixture mean.
use crate::context::promises::the_core_tells_the_items_of_its_kinds;
use crate::context::views::{core_of, ContextSection};
use crate::context_eval::corpus::{
    asks_something, check_names, context_names, empty_fault, fixture_fault, labels, mutation_names,
    name_fault, status_names, ContextExpectations, ContextItemExpectation, ContextQualityFixture,
    ExpectedCore, ExpectedMutation, FixtureWorkstream, ItemStatusExpectation, Named,
    StructuralMutationExpectation,
};
use crate::context_eval::evaluator::{
    all_checks, all_passed, clean_cases, failed, failed_ids, first_with, passed_count, Check,
    CheckResult, EvalCaseResult,
};
use crate::context_eval::gold::{
    absent_check, conflicts_check, context_checks, core_pairs, first_item, first_met,
    forbidden_check, forbidden_checks, gold_checks, is_expected, is_expected_core, is_outcome_of,
    mutations_differ, present_check, required_check, required_checks, state_differs, status_checks,
    total_conflicts, GoldMismatch,
};
use crate::context_eval::proposal::{
    cites, has_all, item_meets, meets, message_numbered, proposal, proposals, Proposal,
};
use crate::store::{item_in, items_of, open_conflicts_of, ItemRow, SessionMessage, Store};
use crate::sync::ContextMutation;
use crate::text::{has_text, texts};
use vstd::prelude::*;

verus! {

// ---------------------------------------------------------------------------
// When a change is what is asked
// ---------------------------------------------------------------------------

/// What a change does.
pub open spec fn deed(m: ContextMutation) -> Seq<char> {
    match m {
        ContextMutation::Add { .. } => "add"@,
        ContextMutation::Update { .. } => "update"@,
        ContextMutation::Supersede { .. } => "supersede"@,
        ContextMutation::Resolve { .. } => "resolve"@,
        ContextMutation::CreateWorkstream { .. } => "create_workstream"@,
        ContextMutation::Conflict { .. } => "conflict"@,
    }
}

/// The title of a change; a resolved item is given none.
pub open spec fn title_in(m: ContextMutation) -> Seq<char> {
    match m {
        ContextMutation::Add { title, .. } => title@,
        ContextMutation::Update { title, .. } => title@,
        ContextMutation::Supersede { title, .. } => title@,
        ContextMutation::Resolve { .. } => Seq::empty(),
        ContextMutation::CreateWorkstream { title, .. } => title@,
        ContextMutation::Conflict { title, .. } => title@,
    }
}

/// The content of a change: the reason, where a workstream is proposed.
pub open spec fn content_in(m: ContextMutation) -> Seq<char> {
    match m {
        ContextMutation::Add { content, .. } => content@,
        ContextMutation::Update { content, .. } => content@,
        ContextMutation::Supersede { content, .. } => content@,
        ContextMutation::Resolve { .. } => Seq::empty(),
        ContextMutation::CreateWorkstream { reason, .. } => reason@,
        ContextMutation::Conflict { content, .. } => content@,
    }
}

/// The change says that it is of a workstream.
pub open spec fn is_in_workstream(m: ContextMutation, id: Seq<char>) -> bool {
    match m {
        ContextMutation::Add { workstream_id, .. } => workstream_id@ == id,
        ContextMutation::Conflict { workstream_id, .. } => workstream_id@ == id,
        _ => false,
    }
}

/// The change is of an item.
pub open spec fn is_of_item(m: ContextMutation, id: Seq<char>) -> bool {
    match m {
        ContextMutation::Update { item_id, .. } => item_id@ == id,
        ContextMutation::Supersede { item_id, .. } => item_id@ == id,
        ContextMutation::Resolve { item_id, .. } => item_id@ == id,
        ContextMutation::Conflict { item_id, .. } => item_id@ == id,
        _ => false,
    }
}

/// The change rests on an authority.
pub open spec fn has_authority(m: ContextMutation, who: Seq<char>) -> bool {
    match m {
        ContextMutation::Add { authority, .. } => authority@ == who,
        ContextMutation::Update { authority, .. } => authority@ == who,
        ContextMutation::Supersede { authority, .. } => authority@ == who,
        _ => false,
    }
}

/// The change cites a source.
pub open spec fn has_source(m: ContextMutation, source: Seq<char>) -> bool {
    match m {
        ContextMutation::Add { source_refs, .. } => texts(source_refs@).contains(source),
        ContextMutation::Update { source_refs, .. } => texts(source_refs@).contains(source),
        ContextMutation::Supersede { source_refs, .. } => texts(source_refs@).contains(source),
        ContextMutation::Resolve { source_refs, .. } => texts(source_refs@).contains(source),
        ContextMutation::CreateWorkstream { .. } => false,
        ContextMutation::Conflict { source_refs, .. } => texts(source_refs@).contains(source),
    }
}

/// The last message with a number.
pub open spec fn last_with_number(messages: Seq<SessionMessage>, number: i64, k: int) -> bool {
    &&& 0 <= k < messages.len()
    &&& messages[k].sequence == number
    &&& forall|j: int| k < j < messages.len() ==> (#[trigger] messages[j]).sequence != number
}

/// A change cites the message with a number.
pub open spec fn rests_on(m: ContextMutation, messages: Seq<SessionMessage>, number: i64) -> bool {
    exists|k: int|
        #[trigger] last_with_number(messages, number, k) && has_source(
            m,
            "session-message:"@ + messages[k].id@,
        )
}

/// A change is all that is asked: what is left out is not asked, one of several deeds or kinds
/// is enough, and all texts and all sources are needed.
pub open spec fn answers(
    m: ContextMutation,
    e: StructuralMutationExpectation,
    messages: Seq<SessionMessage>,
) -> bool {
    &&& e.op@.len() > 0 ==> exists|i: int|
        0 <= i < e.op@.len() && (#[trigger] e.op@[i])@ == deed(m)
    &&& e.workstream_id matches Some(w) ==> is_in_workstream(m, w@)
    &&& e.item_kind@.len() > 0 ==> exists|i: int|
        0 <= i < e.item_kind@.len() && (m matches ContextMutation::Add { item_kind, .. }
            && item_kind@ == (#[trigger] e.item_kind@[i])@)
    &&& e.item_id matches Some(x) ==> is_of_item(m, x@)
    &&& forall|i: int|
        0 <= i < e.title_contains@.len() ==> has_text(title_in(m), (#[trigger] e.title_contains@[i])@)
    &&& forall|i: int|
        0 <= i < e.content_contains@.len() ==> has_text(
            content_in(m),
            (#[trigger] e.content_contains@[i])@,
        )
    &&& e.authority matches Some(a) ==> has_authority(m, a@)
    &&& forall|i: int|
        0 <= i < e.source_events@.len() ==> rests_on(m, messages, #[trigger] e.source_events@[i])
}

proof fn a_number_names_the_last_message(messages: Seq<SessionMessage>, number: i64)
    ensures
        match message_numbered(messages, number) {
            Some(id) => exists|k: int|
                #[trigger] last_with_number(messages, number, k) && messages[k].id@ == id,
            None => forall|k: int|
                0 <= k < messages.len() ==> (#[trigger] messages[k]).sequence != number,
        },
    decreases messages.len(),
{
    if messages.len() > 0 {
        let front = messages.drop_last();
        let last = messages.len() - 1;
        assert(forall|k: int| 0 <= k < last ==> #[trigger] messages[k] == front[k]);
        if messages[last].sequence == number {
            assert(last_with_number(messages, number, last));
        } else {
            a_number_names_the_last_message(front, number);
            match message_numbered(front, number) {
                Some(id) => {
                    let k = choose|k: int|
                        #[trigger] last_with_number(front, number, k) && front[k].id@ == id;
                    assert(last_with_number(messages, number, k));
                },
                None => {},
            }
        }
    }
}

proof fn texts_hold(v: Seq<String>, s: Seq<char>)
    ensures
        texts(v).contains(s) <==> exists|i: int| 0 <= i < v.len() && (#[trigger] v[i])@ == s,
{
    if texts(v).contains(s) {
        let i = choose|i: int| 0 <= i < texts(v).len() && texts(v)[i] == s;
        assert(v[i]@ == s);
    }
    if exists|i: int| 0 <= i < v.len() && (#[trigger] v[i])@ == s {
        let i = choose|i: int| 0 <= i < v.len() && (#[trigger] v[i])@ == s;
        assert(texts(v)[i] == s);
    }
}

/// A change meets an expectation exactly where it is all that is asked.
pub proof fn a_change_meets_what_is_asked(
    m: ContextMutation,
    e: StructuralMutationExpectation,
    messages: Seq<SessionMessage>,
)
    ensures
        meets(proposal(m), e, messages) <==> answers(m, e, messages),
{
    let p = proposal(m);
    texts_hold(e.op@, p.op);
    match p.item_kind {
        Some(k) => {
            texts_hold(e.item_kind@, k);
        },
        None => {},
    }
    assert(has_all(p.title, e.title_contains@) <==> forall|i: int|
        0 <= i < e.title_contains@.len() ==> has_text(
            title_in(m),
            (#[trigger] e.title_contains@[i])@,
        ));
    assert forall|n: i64| #[trigger] cites(p, messages, n) <==> rests_on(m, messages, n) by {
        a_number_names_the_last_message(messages, n);
        assert(forall|s: Seq<char>| #[trigger] p.source_refs.contains(s) <==> has_source(m, s));
        if rests_on(m, messages, n) {
            let k = choose|k: int|
                #[trigger] last_with_number(messages, n, k) && has_source(
                    m,
                    "session-message:"@ + messages[k].id@,
                );
            assert(messages[k].sequence == n);
            let id = message_numbered(messages, n)->0;
            let l = choose|l: int|
                #[trigger] last_with_number(messages, n, l) && messages[l].id@ == id;
            assert(k == l) by {
                if k < l {
                    assert(messages[l].sequence != n);
                } else if l < k {
                    assert(messages[k].sequence != n);
                }
            }
        }
    }
}

proof fn the_first_met_is_met(
    all: Seq<Proposal>,
    e: StructuralMutationExpectation,
    messages: Seq<SessionMessage>,
)
    ensures
        first_met(all, e, messages) is Some <==> exists|i: int|
            0 <= i < all.len() && meets(#[trigger] all[i], e, messages),
    decreases all.len(),
{
    if all.len() > 0 {
        if meets(all[0], e, messages) {
            assert(meets(all[0], e, messages));
        } else {
            let rest = all.drop_first();
            the_first_met_is_met(rest, e, messages);
            assert(forall|i: int| 0 <= i < rest.len() ==> #[trigger] rest[i] == all[i + 1]);
            if exists|i: int| 0 <= i < all.len() && meets(#[trigger] all[i], e, messages) {
                let i = choose|i: int| 0 <= i < all.len() && meets(#[trigger] all[i], e, messages);
                assert(rest[i - 1] == all[i]);
            }
            if exists|i: int| 0 <= i < rest.len() && meets(#[trigger] rest[i], e, messages) {
                let i = choose|i: int|
                    0 <= i < rest.len() && meets(#[trigger] rest[i], e, messages);
                assert(all[i + 1] == rest[i]);
            }
        }
    }
}

/// Some of the proposed changes is all that is asked.
pub open spec fn some_answers(
    mutations: Seq<ContextMutation>,
    e: StructuralMutationExpectation,
    messages: Seq<SessionMessage>,
) -> bool {
    exists|i: int| 0 <= i < mutations.len() && answers(#[trigger] mutations[i], e, messages)
}

proof fn met_means_answered(
    mutations: Seq<ContextMutation>,
    e: StructuralMutationExpectation,
    messages: Seq<SessionMessage>,
)
    ensures
        first_met(proposals(mutations), e, messages) is Some <==> some_answers(
            mutations,
            e,
            messages,
        ),
{
    let all = proposals(mutations);
    the_first_met_is_met(all, e, messages);
    assert forall|i: int| 0 <= i < mutations.len() implies (meets(#[trigger] all[i], e, messages)
        <==> answers(mutations[i], e, messages)) by {
        a_change_meets_what_is_asked(mutations[i], e, messages);
    }
    if some_answers(mutations, e, messages) {
        let i = choose|i: int|
            0 <= i < mutations.len() && answers(#[trigger] mutations[i], e, messages);
        assert(meets(all[i], e, messages));
    }
    if exists|i: int| 0 <= i < all.len() && meets(#[trigger] all[i], e, messages) {
        let i = choose|i: int| 0 <= i < all.len() && meets(#[trigger] all[i], e, messages);
        assert(answers(mutations[i], e, messages));
    }
}

// ---------------------------------------------------------------------------
// The checks on changes
// ---------------------------------------------------------------------------

/// The check on a forbidden change passes exactly where no proposed change is all that it says,
/// and says what was found exactly where it fails.
pub proof fn what_is_forbidden_fails(
    f: ContextQualityFixture,
    store: Store,
    messages: Seq<SessionMessage>,
    mutations: Seq<ContextMutation>,
    kinds: Seq<String>,
    k: int,
)
    requires
        0 <= k < f.extractor_gold.forbidden_mutations@.len(),
    ensures
        ({
            let e = f.extractor_gold.forbidden_mutations@[k];
            let c = gold_checks(
                f,
                store,
                messages,
                mutations,
                kinds,
            )[f.extractor_gold.required_mutations@.len() + k];
            &&& f.extractor_gold.required_mutations@.len() + k < gold_checks(
                f,
                store,
                messages,
                mutations,
                kinds,
            ).len()
            &&& c.id == "forbidden:"@ + e.id@
            &&& c.passed <==> !some_answers(mutations, e, messages)
            &&& c.passed <==> c.detail.len() == 0
        }),
{
    let gold = f.extractor_gold;
    let e = gold.forbidden_mutations@[k];
    let all = proposals(mutations);
    met_means_answered(mutations, e, messages);
    reveal_strlit("produced ");
    let c = forbidden_check(e, all, messages);
    assert(forbidden_checks(gold.forbidden_mutations@, all, messages)[k] == c);
    assert(gold_checks(
        f,
        store,
        messages,
        mutations,
        kinds,
    )[gold.required_mutations@.len() + k] == c);
}

/// The check on a required change passes exactly where some proposed change is all that it says,
/// and says what was found exactly where it fails.
pub proof fn what_is_required_passes(
    f: ContextQualityFixture,
    store: Store,
    messages: Seq<SessionMessage>,
    mutations: Seq<ContextMutation>,
    kinds: Seq<String>,
    k: int,
)
    requires
        0 <= k < f.extractor_gold.required_mutations@.len(),
    ensures
        ({
            let e = f.extractor_gold.required_mutations@[k];
            let c = gold_checks(f, store, messages, mutations, kinds)[k];
            &&& k < gold_checks(f, store, messages, mutations, kinds).len()
            &&& c.id == "required:"@ + e.id@
            &&& c.passed <==> some_answers(mutations, e, messages)
            &&& c.passed <==> c.detail.len() == 0
        }),
{
    let gold = f.extractor_gold;
    let e = gold.required_mutations@[k];
    let all = proposals(mutations);
    met_means_answered(mutations, e, messages);
    reveal_strlit("no mutation matches (");
    let c = required_check(e, all, messages);
    assert(required_checks(gold.required_mutations@, all, messages)[k] == c);
    assert(gold_checks(f, store, messages, mutations, kinds)[k] == c);
}

/// An extractor that proposes what is forbidden is told to have failed that check.
pub proof fn a_forbidden_change_is_reported(
    r: EvalCaseResult,
    f: ContextQualityFixture,
    store: Store,
    messages: Seq<SessionMessage>,
    mutations: Seq<ContextMutation>,
    kinds: Seq<String>,
    k: int,
)
    requires
        0 <= k < f.extractor_gold.forbidden_mutations@.len(),
        is_outcome_of(r, f, gold_checks(f, store, messages, mutations, kinds)),
        some_answers(mutations, f.extractor_gold.forbidden_mutations@[k], messages),
    ensures
        failed_ids(r.checks@).contains(
            "forbidden:"@ + f.extractor_gold.forbidden_mutations@[k].id@,
        ),
        exists|i: int|
            0 <= i < r.checks@.len() && !(#[trigger] r.checks@[i]).passed && r.checks@[i].id@
                == "forbidden:"@ + f.extractor_gold.forbidden_mutations@[k].id@,
{
    what_is_forbidden_fails(f, store, messages, mutations, kinds, k);
    let i = f.extractor_gold.required_mutations@.len() + k;
    an_outcome_is_told_as_it_is(r, f, gold_checks(f, store, messages, mutations, kinds), i);
    assert(!r.checks@[i].passed);
}

/// An extractor that does not propose what is required is told to have failed that check.
pub proof fn a_missing_change_is_reported(
    r: EvalCaseResult,
    f: ContextQualityFixture,
    store: Store,
    messages: Seq<SessionMessage>,
    mutations: Seq<ContextMutation>,
    kinds: Seq<String>,
    k: int,
)
    requires
        0 <= k < f.extractor_gold.required_mutations@.len(),
        is_outcome_of(r, f, gold_checks(f, store, messages, mutations, kinds)),
        !some_answers(mutations, f.extractor_gold.required_mutations@[k], messages),
    ensures
        failed_ids(r.checks@).contains("required:"@ + f.extractor_gold.required_mutations@[k].id@),
{
    what_is_required_passes(f, store, messages, mutations, kinds, k);
    an_outcome_is_told_as_it_is(r, f, gold_checks(f, store, messages, mutations, kinds), k);
    assert(!r.checks@[k].passed);
}

/// The outcome of a fixture is told under its own name, and check by check as it came out.
pub proof fn an_outcome_is_told_as_it_is(
    r: EvalCaseResult,
    f: ContextQualityFixture,
    checks: Seq<Check>,
    i: int,
)
    requires
        is_outcome_of(r, f, checks),
    ensures
        r.fixture_name@ == f.name@,
        r.dimension@ == f.dimension@,
        r.description@ == f.description@,
        r.checks@.len() == checks.len(),
        0 <= i < checks.len() ==> r.checks@[i].id@ == checks[i].id && r.checks@[i].passed
            == checks[i].passed && r.checks@[i].detail@ == checks[i].detail,
{
    assert(r.checks.deep_view().len() == r.checks@.len());
    if 0 <= i < checks.len() {
        assert(r.checks.deep_view()[i] == r.checks@[i].deep_view());
    }
}

// ---------------------------------------------------------------------------
// The checks on contexts
// ---------------------------------------------------------------------------

/// An item at the core is all that is asked.
pub open spec fn item_answers(row: ItemRow, e: ContextItemExpectation) -> bool {
    &&& e.kind matches Some(k) ==> row.item.kind@ == k@
    &&& forall|i: int|
        0 <= i < e.title_contains@.len() ==> has_text(
            row.revision.title@,
            (#[trigger] e.title_contains@[i])@,
        )
}

/// Some item in force of a workstream, of one of the kinds, is all that is asked.
pub open spec fn core_answers(
    store: Store,
    workstream: Seq<char>,
    kinds: Seq<String>,
    e: ContextItemExpectation,
) -> bool {
    exists|row: ItemRow, k: int|
        0 <= k < kinds.len() && #[trigger] items_of(store.items@, workstream).contains(row)
            && row.item.kind@ == (#[trigger] kinds[k])@ && item_answers(row, e)
}

proof fn the_first_item_is_there(all: Seq<(Seq<char>, Seq<char>)>, e: ContextItemExpectation)
    ensures
        first_item(all, e) is Some <==> exists|i: int|
            0 <= i < all.len() && item_meets((#[trigger] all[i]).0, all[i].1, e),
    decreases all.len(),
{
    if all.len() > 0 {
        if item_meets(all[0].0, all[0].1, e) {
            assert(item_meets(all[0].0, all[0].1, e));
        } else {
            let rest = all.drop_first();
            the_first_item_is_there(rest, e);
            assert(forall|i: int| 0 <= i < rest.len() ==> #[trigger] rest[i] == all[i + 1]);
            if exists|i: int|
                0 <= i < all.len() && item_meets((#[trigger] all[i]).0, all[i].1, e) {
                let i = choose|i: int|
                    0 <= i < all.len() && item_meets((#[trigger] all[i]).0, all[i].1, e);
                assert(rest[i - 1] == all[i]);
            }
            if exists|i: int|
                0 <= i < rest.len() && item_meets((#[trigger] rest[i]).0, rest[i].1, e) {
                let i = choose|i: int|
                    0 <= i < rest.len() && item_meets((#[trigger] rest[i]).0, rest[i].1, e);
                assert(all[i + 1] == rest[i]);
            }
        }
    }
}

proof fn an_item_at_the_core_is_in_force(
    store: Store,
    workstream: Seq<char>,
    kinds: Seq<String>,
    e: ContextItemExpectation,
)
    ensures
        first_item(core_pairs(store, workstream, kinds), e) is Some <==> core_answers(
            store,
            workstream,
            kinds,
            e,
        ),
{
    let rows = items_of(store.items@, workstream);
    let core = core_of(rows, kinds);
    let pairs = core_pairs(store, workstream, kinds);
    the_first_item_is_there(pairs, e);
    if first_item(pairs, e) is Some {
        let i = choose|i: int|
            0 <= i < pairs.len() && item_meets((#[trigger] pairs[i]).0, pairs[i].1, e);
        let s = core[i];
        assert(core.contains(s));
        the_core_tells_the_items_of_its_kinds(rows, kinds, s);
        let (row, k) = choose|row: ItemRow, k: int|
            0 <= k < kinds.len() && #[trigger] rows.contains(row) && row.item.kind@ == (
            #[trigger] kinds[k])@ && s == (ContextSection {
                kind: row.item.kind,
                title: row.revision.title,
                content: row.revision.content,
                authority: row.item.authority,
                source_ref: row.revision.source_ref,
                item_id: row.item.id,
                revision_id: Some(row.revision.id),
            });
        assert(pairs[i] == (s.kind@, s.title@));
        assert(item_answers(row, e));
        assert(rows.contains(row) && row.item.kind@ == kinds[k]@);
    }
    if core_answers(store, workstream, kinds, e) {
        let (row, k) = choose|row: ItemRow, k: int|
            0 <= k < kinds.len() && #[trigger] rows.contains(row) && row.item.kind@ == (
            #[trigger] kinds[k])@ && item_answers(row, e);
        let s = ContextSection {
            kind: row.item.kind,
            title: row.revision.title,
            content: row.revision.content,
            authority: row.item.authority,
            source_ref: row.revision.source_ref,
            item_id: row.item.id,
            revision_id: Some(row.revision.id),
        };
        the_core_tells_the_items_of_its_kinds(rows, kinds, s);
        assert(core.contains(s));
        let i = choose|i: int| 0 <= i < core.len() && core[i] == s;
        assert(pairs[i] == (s.kind@, s.title@));
        assert(item_meets(pairs[i].0, pairs[i].1, e));
    }
}

/// The check that an item is at the core passes exactly where some item in force of that
/// workstream is all that is asked; the check that none is passes exactly where none is. Each
/// says what was found exactly where it fails.
pub proof fn a_context_check_looks_at_the_items_in_force(
    store: Store,
    workstream: Seq<char>,
    kinds: Seq<String>,
    e: ContextItemExpectation,
)
    ensures
        ({
            let effective = core_pairs(store, workstream, kinds);
            let present = present_check(workstream, e, effective);
            let absent = absent_check(workstream, e, effective);
            &&& present.id == "required_context:"@ + e.id@
            &&& present.passed <==> core_answers(store, workstream, kinds, e)
            &&& present.passed <==> present.detail.len() == 0
            &&& absent.id == "forbidden_context:"@ + e.id@
            &&& absent.passed <==> !core_answers(store, workstream, kinds, e)
            &&& absent.passed <==> absent.detail.len() == 0
        }),
{
    an_item_at_the_core_is_in_force(store, workstream, kinds, e);
    reveal_strlit("missing in ");
    reveal_strlit("(\"");
}

/// Every expectation on a context is checked, each on its own workstream.
pub proof fn every_context_is_checked(
    required: bool,
    list: Seq<ContextExpectations>,
    store: Store,
    kinds: Seq<String>,
    i: int,
    j: int,
)
    requires
        0 <= i < list.len(),
        0 <= j < list[i].items@.len(),
    ensures
        ({
            let e = list[i].items@[j];
            let there = core_answers(store, list[i].workstream_id@, kinds, e);
            exists|c: Check|
                #[trigger] context_checks(required, list, store, kinds).contains(c) && c.passed == (
                there == required) && (c.detail.len() == 0 <==> c.passed) && c.id == (if required {
                    "required_context:"@ + e.id@
                } else {
                    "forbidden_context:"@ + e.id@
                })
        }),
    decreases list.len(),
{
    let last = list.len() - 1;
    let w = list[last].workstream_id@;
    let effective = core_pairs(store, w, kinds);
    let before = context_checks(required, list.drop_last(), store, kinds);
    let all = context_checks(required, list, store, kinds);
    if i == last {
        let e = list[i].items@[j];
        a_context_check_looks_at_the_items_in_force(store, w, kinds, e);
        let c = if required {
            present_check(w, e, effective)
        } else {
            absent_check(w, e, effective)
        };
        assert(all[before.len() + j] == c);
        assert(all.contains(c));
    } else {
        every_context_is_checked(required, list.drop_last(), store, kinds, i, j);
        let e = list[i].items@[j];
        let there = core_answers(store, list[i].workstream_id@, kinds, e);
        let c = choose|c: Check|
            #[trigger] before.contains(c) && c.passed == (there == required) && (c.detail.len() == 0
                <==> c.passed) && c.id == (if required {
                "required_context:"@ + e.id@
            } else {
                "forbidden_context:"@ + e.id@
            });
        let p = choose|p: int| 0 <= p < before.len() && before[p] == c;
        assert(all[p] == c);
        assert(all.contains(c));
    }
}

/// All expectations on contexts, on the status of items and on contradictions are among the checks
/// of a fixture, and the check on contradictions comes last.
pub proof fn all_checks_are_run(
    f: ContextQualityFixture,
    store: Store,
    messages: Seq<SessionMessage>,
    mutations: Seq<ContextMutation>,
    kinds: Seq<String>,
    c: Check,
)
    ensures
        ({
            let gold = f.extractor_gold;
            let all = gold_checks(f, store, messages, mutations, kinds);
            &&& context_checks(true, gold.required_context@, store, kinds).contains(c)
                ==> all.contains(c)
            &&& context_checks(false, gold.forbidden_context@, store, kinds).contains(c)
                ==> all.contains(c)
            &&& status_checks(gold.required_item_status@, store).contains(c) ==> all.contains(c)
            &&& all.len() > 0
            &&& all.last().id == "conflicts:count"@
            &&& all.last().passed <==> total_conflicts(f.input.workstreams@, store)
                == gold.conflicts_count
            &&& all.last().passed <==> all.last().detail.len() == 0
        }),
{
    let gold = f.extractor_gold;
    let all = gold_checks(f, store, messages, mutations, kinds);
    let p = proposals(mutations);
    let a = required_checks(gold.required_mutations@, p, messages) + forbidden_checks(
        gold.forbidden_mutations@,
        p,
        messages,
    );
    let b = context_checks(true, gold.required_context@, store, kinds);
    let d = context_checks(false, gold.forbidden_context@, store, kinds);
    let s = status_checks(gold.required_item_status@, store);
    reveal_strlit("expected ");
    if b.contains(c) {
        let i = choose|i: int| 0 <= i < b.len() && b[i] == c;
        assert(all[a.len() + i] == c);
    }
    if d.contains(c) {
        let i = choose|i: int| 0 <= i < d.len() && d[i] == c;
        assert(all[a.len() + b.len() + i] == c);
    }
    if s.contains(c) {
        let i = choose|i: int| 0 <= i < s.len() && s[i] == c;
        assert(all[a.len() + b.len() + d.len() + i] == c);
    }
}

/// The check on the status of an item passes exactly where the item is there with that status.
pub proof fn a_status_check_looks_at_the_item(
    list: Seq<ItemStatusExpectation>,
    store: Store,
    k: int,
)
    requires
        0 <= k < list.len(),
    ensures
        ({
            let e = list[k];
            let c = status_checks(list, store)[k];
            &&& status_checks(list, store).len() == list.len()
            &&& c.id == "item_status:"@ + e.id@
            &&& c.passed <==> (item_in(store.items@, e.item_id@) matches Some(row)
                && row.item.status@ == e.status@)
            &&& c.passed <==> c.detail.len() == 0
        }),
{
    reveal_strlit("item ");
}

/// The contradictions of workstreams add up, and those of one are its own open ones.
pub proof fn contradictions_add_up(
    a: Seq<FixtureWorkstream>,
    b: Seq<FixtureWorkstream>,
    w: FixtureWorkstream,
    store: Store,
)
    ensures
        total_conflicts(a + b, store) == total_conflicts(a, store) + total_conflicts(b, store),
        total_conflicts(seq![w], store) == open_conflicts_of(store.conflicts@, w.id@).len(),
        total_conflicts(Seq::empty(), store) == 0,
    decreases b.len(),
{
    reveal_with_fuel(total_conflicts, 2);
    assert(seq![w].drop_last() =~= Seq::<FixtureWorkstream>::empty());
    if b.len() == 0 {
        assert(a + b =~= a);
    } else {
        contradictions_add_up(a, b.drop_last(), w, store);
        assert((a + b).drop_last() =~= a + b.drop_last());
        assert((a + b).last() == b.last());
    }
}

// ---------------------------------------------------------------------------
// The exact layer
// ---------------------------------------------------------------------------

/// A recorded change is the expected one exactly where it does the same to an item that exists or
/// is added, and agrees with all that is said of it.
pub proof fn an_expected_change_agrees(m: ContextMutation, e: ExpectedMutation)
    ensures
        is_expected(m, e) <==> {
            &&& !(m is CreateWorkstream) && !(m is Conflict)
            &&& e.op@ == deed(m)
            &&& m is Add ==> {
                &&& e.workstream_id matches Some(w) ==> is_in_workstream(m, w@)
                &&& e.item_kind matches Some(k) ==> m->Add_item_kind@ == k@
            }
            &&& !(m is Add) ==> (e.item_id matches Some(x) ==> is_of_item(m, x@))
            &&& !(m is Resolve) ==> {
                &&& e.title matches Some(t) ==> title_in(m) == t@
                &&& e.authority matches Some(a) ==> has_authority(m, a@)
            }
        },
{
}

/// A core is the expected one exactly where it has as many items, and each in its place is of the
/// expected kind and title.
pub proof fn an_expected_core_agrees(e: ExpectedCore, store: Store, kinds: Seq<String>)
    ensures
        ({
            let core = core_of(items_of(store.items@, e.workstream_id@), kinds);
            is_expected_core(e, store, kinds) <==> {
                &&& core.len() == e.items@.len()
                &&& forall|i: int|
                    0 <= i < core.len() ==> (#[trigger] core[i]).kind@ == e.items@[i].kind@
                        && core[i].title@ == e.items@[i].title@
            }
        }),
{
    let core = core_of(items_of(store.items@, e.workstream_id@), kinds);
    let pairs = core_pairs(store, e.workstream_id@, kinds);
    let wanted = e.items@.map_values(
        |i: crate::context_eval::corpus::ExpectedCoreItem| (i.kind@, i.title@),
    );
    if is_expected_core(e, store, kinds) {
        assert(pairs.len() == e.items@.len());
        assert forall|i: int| 0 <= i < core.len() implies (#[trigger] core[i]).kind@
            == e.items@[i].kind@ && core[i].title@ == e.items@[i].title@ by {
            assert(pairs[i] == (core[i].kind@, core[i].title@));
            assert(pairs[i] == (e.items@[i].kind@, e.items@[i].title@));
        }
    }
    if core.len() == e.items@.len() && forall|i: int|
        0 <= i < core.len() ==> (#[trigger] core[i]).kind@ == e.items@[i].kind@ && core[i].title@
            == e.items@[i].title@ {
        assert forall|i: int| 0 <= i < pairs.len() implies #[trigger] pairs[i] == (
            e.items@[i].kind@,
            e.items@[i].title@,
        ) by {
            assert(pairs[i] == (core[i].kind@, core[i].title@));
        }
        assert(pairs =~= e.items@.map_values(
            |i: crate::context_eval::corpus::ExpectedCoreItem| (i.kind@, i.title@),
        ));
    }
}

/// Nothing differs exactly where every change and every core is the expected one and as many
/// contradictions are open; where something does, it is the first.
pub proof fn the_first_difference_is_told(
    actual: Seq<ContextMutation>,
    f: ContextQualityFixture,
    store: Store,
    kinds: Seq<String>,
)
    ensures
        mutations_differ(actual, f.gold.mutations@, None) <==> (actual.len()
            == f.gold.mutations@.len() && forall|k: int|
            0 <= k < actual.len() ==> is_expected(#[trigger] actual[k], f.gold.mutations@[k])),
        forall|index: usize|
            #[trigger] mutations_differ(
                actual,
                f.gold.mutations@,
                Some(GoldMismatch::Mutation { index }),
            ) ==> index < actual.len() && !is_expected(
                actual[index as int],
                f.gold.mutations@[index as int],
            ) && forall|k: int|
                0 <= k < index ==> is_expected(#[trigger] actual[k], f.gold.mutations@[k]),
        forall|expected: usize, found: usize|
            #[trigger] mutations_differ(
                actual,
                f.gold.mutations@,
                Some(GoldMismatch::MutationCount { expected, actual: found }),
            ) ==> expected == f.gold.mutations@.len() && found == actual.len() && expected != found,
        state_differs(f, store, kinds, None) <==> (total_conflicts(f.input.workstreams@, store)
            == f.gold.conflicts_count && forall|k: int|
            0 <= k < f.gold.effective_context@.len() ==> is_expected_core(
                #[trigger] f.gold.effective_context@[k],
                store,
                kinds,
            )),
        forall|index: usize|
            #[trigger] state_differs(f, store, kinds, Some(GoldMismatch::Core { index })) ==> index
                < f.gold.effective_context@.len() && !is_expected_core(
                f.gold.effective_context@[index as int],
                store,
                kinds,
            ) && forall|k: int|
                0 <= k < index ==> is_expected_core(
                    #[trigger] f.gold.effective_context@[k],
                    store,
                    kinds,
                ),
        forall|expected: usize, found: usize|
            #[trigger] state_differs(
                f,
                store,
                kinds,
                Some(GoldMismatch::Conflicts { expected, actual: found }),
            ) ==> expected == f.gold.conflicts_count && found == total_conflicts(
                f.input.workstreams@,
                store,
            ) && expected != found,
{
}

// ---------------------------------------------------------------------------
// Results
// ---------------------------------------------------------------------------

/// Checks are counted each on its own.
pub proof fn passed_checks_add_up(a: Seq<CheckResult>, b: Seq<CheckResult>, c: CheckResult)
    ensures
        passed_count(a + b) == passed_count(a) + passed_count(b),
        passed_count(seq![c]) == (if c.passed {
            1nat
        } else {
            0
        }),
        passed_count(Seq::empty()) == 0,
    decreases b.len(),
{
    reveal_with_fuel(passed_count, 2);
    assert(seq![c].drop_last() =~= Seq::<CheckResult>::empty());
    if b.len() == 0 {
        assert(a + b =~= a);
    } else {
        passed_checks_add_up(a, b.drop_last(), c);
        assert((a + b).drop_last() =~= a + b.drop_last());
        assert((a + b).last() == b.last());
    }
}

/// The totals of a report are the sums over its cases, and a case is clean exactly where every
/// one of its checks passed.
pub proof fn a_report_adds_up(a: Seq<EvalCaseResult>, b: Seq<EvalCaseResult>, c: EvalCaseResult)
    ensures
        all_checks(a + b) == all_checks(a) + all_checks(b),
        all_passed(a + b) == all_passed(a) + all_passed(b),
        clean_cases(a + b) == clean_cases(a) + clean_cases(b),
        all_checks(seq![c]) == c.checks@.len(),
        all_passed(seq![c]) == passed_count(c.checks@),
        clean_cases(seq![c]) == (if forall|i: int|
            0 <= i < c.checks@.len() ==> (#[trigger] c.checks@[i]).passed {
            1nat
        } else {
            0
        }),
    decreases b.len(),
{
    reveal_with_fuel(all_checks, 2);
    reveal_with_fuel(all_passed, 2);
    reveal_with_fuel(clean_cases, 2);
    assert(seq![c].drop_last() =~= Seq::<EvalCaseResult>::empty());
    assert(seq![c].last() == c);
    let ids = failed_ids(c.checks@);
    if forall|i: int| 0 <= i < c.checks@.len() ==> (#[trigger] c.checks@[i]).passed {
        assert(ids =~= Set::empty());
    } else {
        let i = choose|i: int| 0 <= i < c.checks@.len() && !(#[trigger] c.checks@[i]).passed;
        assert(failed(c.checks@, c.checks@[i].id@));
        assert(ids.contains(c.checks@[i].id@));
    }
    if b.len() == 0 {
        assert(a + b =~= a);
    } else {
        a_report_adds_up(a, b.drop_last(), c);
        assert((a + b).drop_last() =~= a + b.drop_last());
        assert((a + b).last() == b.last());
    }
}

/// The check that is told of an id is the first with it.
pub proof fn the_first_check_is_told(checks: Seq<CheckResult>, id: Seq<char>)
    ensures
        match first_with(checks, id) {
            Some(c) => exists|i: int|
                0 <= i < checks.len() && #[trigger] checks[i] == c && c.id@ == id && forall|j: int|
                    0 <= j < i ==> (#[trigger] checks[j]).id@ != id,
            None => forall|i: int| 0 <= i < checks.len() ==> (#[trigger] checks[i]).id@ != id,
        },
    decreases checks.len(),
{
    if checks.len() > 0 && checks[0].id@ != id {
        let rest = checks.drop_first();
        the_first_check_is_told(rest, id);
        assert(forall|i: int| 0 < i < checks.len() ==> #[trigger] checks[i] == rest[i - 1]);
        match first_with(rest, id) {
            Some(c) => {
                let i = choose|i: int|
                    0 <= i < rest.len() && #[trigger] rest[i] == c && c.id@ == id && forall|j: int|
                        0 <= j < i ==> (#[trigger] rest[j]).id@ != id;
                assert(checks[i + 1] == c);
                assert forall|j: int| 0 <= j < i + 1 implies (#[trigger] checks[j]).id@ != id by {
                    if j > 0 {
                        assert(rest[j - 1].id@ != id);
                    }
                }
            },
            None => {},
        }
    } else if checks.len() > 0 {
        assert(checks[0] == first_with(checks, id)->0);
    }
}

// ---------------------------------------------------------------------------
// Well-formed fixtures
// ---------------------------------------------------------------------------

/// The names that are held to be distinct are the ids of the checks that are run, but for the one
/// on contradictions.
pub proof fn names_are_the_ids_of_checks(
    f: ContextQualityFixture,
    store: Store,
    messages: Seq<SessionMessage>,
    mutations: Seq<ContextMutation>,
    kinds: Seq<String>,
    k: int,
)
    ensures
        gold_checks(f, store, messages, mutations, kinds).len() == check_names(
            f.extractor_gold,
        ).len() + 1,
        0 <= k < check_names(f.extractor_gold).len() ==> labels(check_names(f.extractor_gold))[k]
            == gold_checks(f, store, messages, mutations, kinds)[k].id,
{
    let gold = f.extractor_gold;
    let p = proposals(mutations);
    reveal_strlit(":");
    reveal_strlit("required");
    reveal_strlit("required:");
    reveal_strlit("forbidden");
    reveal_strlit("forbidden:");
    reveal_strlit("item_status");
    reveal_strlit("item_status:");
    assert("required"@ + ":"@ =~= "required:"@);
    assert("forbidden"@ + ":"@ =~= "forbidden:"@);
    assert("item_status"@ + ":"@ =~= "item_status:"@);
    let n1 = mutation_names("required"@, gold.required_mutations@);
    let n2 = mutation_names("forbidden"@, gold.forbidden_mutations@);
    let n3 = context_names("required_context"@, gold.required_context@);
    let n4 = context_names("forbidden_context"@, gold.forbidden_context@);
    let n5 = status_names(gold.required_item_status@);
    let c1 = required_checks(gold.required_mutations@, p, messages);
    let c2 = forbidden_checks(gold.forbidden_mutations@, p, messages);
    let c3 = context_checks(true, gold.required_context@, store, kinds);
    let c4 = context_checks(false, gold.forbidden_context@, store, kinds);
    let c5 = status_checks(gold.required_item_status@, store);
    context_names_are_ids(true, gold.required_context@, store, kinds);
    context_names_are_ids(false, gold.forbidden_context@, store, kinds);
    let names = check_names(gold);
    let all = gold_checks(f, store, messages, mutations, kinds);
    assert(names == n1 + n2 + n3 + n4 + n5);
    assert(all == (c1 + c2 + c3 + c4 + c5).push(
        conflicts_check(gold.conflicts_count, total_conflicts(f.input.workstreams@, store)),
    ));
    if 0 <= k < names.len() {
        let l1 = n1.len();
        let l2 = l1 + n2.len();
        let l3 = l2 + n3.len();
        let l4 = l3 + n4.len();
        if k < l1 {
            assert(names[k] == n1[k] && all[k] == c1[k]);
            assert(n1[k].family == "required"@);
        } else if k < l2 {
            assert(names[k] == n2[k - l1] && all[k] == c2[k - l1]);
            assert(n2[k - l1].family == "forbidden"@);
        } else if k < l3 {
            assert(names[k] == n3[k - l2] && all[k] == c3[k - l2]);
            assert(n3[k - l2].label() == c3[k - l2].id);
        } else if k < l4 {
            assert(names[k] == n4[k - l3] && all[k] == c4[k - l3]);
            assert(n4[k - l3].label() == c4[k - l3].id);
        } else {
            assert(names[k] == n5[k - l4] && all[k] == c5[k - l4]);
            assert(n5[k - l4].family == "item_status"@);
        }
        assert(labels(names)[k] == names[k].label());
    }
}

/// The family of the checks on contexts.
pub open spec fn family_of(required: bool) -> Seq<char> {
    if required {
        "required_context"@
    } else {
        "forbidden_context"@
    }
}

proof fn context_names_are_ids(
    required: bool,
    list: Seq<ContextExpectations>,
    store: Store,
    kinds: Seq<String>,
)
    ensures
        ({
            let family = family_of(required);
            let names = context_names(family, list);
            let checks = context_checks(required, list, store, kinds);
            &&& names.len() == checks.len()
            &&& forall|i: int|
                0 <= i < names.len() ==> (#[trigger] names[i]).label() == checks[i].id
        }),
    decreases list.len(),
{
    reveal_strlit(":");
    reveal_strlit("required_context");
    reveal_strlit("required_context:");
    reveal_strlit("forbidden_context");
    reveal_strlit("forbidden_context:");
    assert("required_context"@ + ":"@ =~= "required_context:"@);
    assert("forbidden_context"@ + ":"@ =~= "forbidden_context:"@);
    let family = family_of(required);
    if list.len() > 0 {
        let front = list.drop_last();
        context_names_are_ids(required, front, store, kinds);
        let before = context_names(family, front);
        let checked = context_checks(required, front, store, kinds);
        let names = context_names(family, list);
        let checks = context_checks(required, list, store, kinds);
        let items = list.last().items@;
        let effective = core_pairs(store, list.last().workstream_id@, kinds);
        assert forall|i: int| 0 <= i < names.len() implies (#[trigger] names[i]).label()
            == checks[i].id by {
            if i < before.len() {
                assert(names[i] == before[i] && checks[i] == checked[i]);
                assert(before[i].label() == checked[i].id);
            } else {
                let e = items[i - before.len()];
                assert(names[i] == Named { family, id: e.id@ });
                assert(checks[i] == if required {
                    present_check(list.last().workstream_id@, e, effective)
                } else {
                    absent_check(list.last().workstream_id@, e, effective)
                });
                assert(names[i].label() == family + ":"@ + e.id@);
            }
        }
    }
}

/// A fixture is well-formed exactly where every check has an id, no two have the same, and every
/// expectation on a change asks something of it.
pub proof fn a_well_formed_fixture_asks_distinctly(f: ContextQualityFixture)
    ensures
        ({
            let gold = f.extractor_gold;
            let names = check_names(gold);
            fixture_fault(f) is None <==> {
                &&& forall|i: int| 0 <= i < names.len() ==> (#[trigger] names[i]).id.len() > 0
                &&& forall|i: int, j: int|
                    0 <= i < j < names.len() ==> #[trigger] labels(names)[i]
                        != #[trigger] labels(names)[j]
                &&& forall|i: int|
                    0 <= i < gold.required_mutations@.len() ==> asks(
                        #[trigger] gold.required_mutations@[i],
                    )
                &&& forall|i: int|
                    0 <= i < gold.forbidden_mutations@.len() ==> asks(
                        #[trigger] gold.forbidden_mutations@[i],
                    )
            }
        }),
{
    let gold = f.extractor_gold;
    well_named(f.name@, check_names(gold));
    well_asked(f.name@, gold.required_mutations@);
    well_asked(f.name@, gold.forbidden_mutations@);
}

/// Anything is asked of a change.
pub open spec fn asks(e: StructuralMutationExpectation) -> bool {
    !(e.op@.len() == 0 && e.workstream_id is None && e.item_kind@.len() == 0 && e.item_id is None
        && e.title_contains@.len() == 0 && e.content_contains@.len() == 0 && e.authority is None
        && e.source_events@.len() == 0)
}

proof fn well_asked(fixture: Seq<char>, list: Seq<StructuralMutationExpectation>)
    ensures
        empty_fault(fixture, list) is None <==> forall|i: int|
            0 <= i < list.len() ==> asks(#[trigger] list[i]),
    decreases list.len(),
{
    if list.len() > 0 {
        let front = list.drop_last();
        let last = list.len() - 1;
        well_asked(fixture, front);
        assert(forall|i: int| 0 <= i < last ==> #[trigger] list[i] == front[i]);
        assert(asks_something(list[last]) == asks(list[last]));
        if empty_fault(fixture, list) is None {
            assert forall|i: int| 0 <= i < list.len() implies asks(#[trigger] list[i]) by {
                if i < last {
                    assert(asks(front[i]));
                }
            }
        }
        if forall|i: int| 0 <= i < list.len() ==> asks(#[trigger] list[i]) {
            assert forall|i: int| 0 <= i < front.len() implies asks(#[trigger] front[i]) by {
                assert(asks(list[i]));
            }
            assert(asks(list[last]));
        }
    }
}

proof fn well_named(fixture: Seq<char>, names: Seq<Named>)
    ensures
        name_fault(fixture, names) is None <==> {
            &&& forall|i: int| 0 <= i < names.len() ==> (#[trigger] names[i]).id.len() > 0
            &&& forall|i: int, j: int|
                0 <= i < j < names.len() ==> #[trigger] labels(names)[i] != #[trigger] labels(
                    names,
                )[j]
        },
    decreases names.len(),
{
    if names.len() > 0 {
        let front = names.drop_last();
        let last = names.len() - 1;
        well_named(fixture, front);
        assert(forall|i: int| 0 <= i < last ==> #[trigger] names[i] == front[i]);
        assert(forall|i: int| 0 <= i < last ==> #[trigger] labels(names)[i] == labels(front)[i]);
        assert(labels(names)[last] == names[last].label());
        if name_fault(fixture, names) is None {
            assert forall|i: int| 0 <= i < names.len() implies (#[trigger] names[i]).id.len()
                > 0 by {
                if i < last {
                    assert(front[i].id.len() > 0);
                }
            }
            assert forall|i: int, j: int| 0 <= i < j < names.len() implies #[trigger] labels(
                names,
            )[i] != #[trigger] labels(names)[j] by {
                if j < last {
                    assert(labels(front)[i] != labels(front)[j]);
                } else {
                    assert(labels(front).contains(labels(front)[i]));
                }
            }
        }
        if (forall|i: int| 0 <= i < names.len() ==> (#[trigger] names[i]).id.len() > 0) && (forall|
            i: int,
            j: int,
        |
            0 <= i < j < names.len() ==> #[trigger] labels(names)[i] != #[trigger] labels(
                names,
            )[j]) {
            assert forall|i: int| 0 <= i < front.len() implies (#[trigger] front[i]).id.len()
                > 0 by {
                assert(names[i].id.len() > 0);
            }
            assert forall|i: int, j: int| 0 <= i < j < front.len() implies #[trigger] labels(
                front,
            )[i] != #[trigger] labels(front)[j] by {
                assert(labels(names)[i] != labels(names)[j]);
            }
            assert(names[last].id.len() > 0);
            if labels(front).contains(names[last].label()) {
                let i = choose|i: int|
                    0 <= i < labels(front).len() && labels(front)[i] == names[last].label();
                assert(labels(names)[i] == labels(names)[last]);
            }
        }
    }
}

} // verus!
