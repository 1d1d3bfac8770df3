//! The checks of a fixture, run on what came out.
use crate::context::resolve_core_context;
use crate::context::views::{core_of, ContextSection};
use crate::context_eval::corpus::{
    ContextExpectations, ContextItemExpectation, ContextQualityFixture, ExpectedCore,
    ExpectedCoreItem, ExpectedMutation, FixtureWorkstream, ItemStatusExpectation,
    StructuralMutationExpectation,
};
use crate::context_eval::evaluator::{Check, CheckResult, EvalCaseResult};
use crate::context_eval::proposal::{
    agrees, context_matches, describe_context_expectation, describe_expectation, describe_mutation,
    expectation_text, item_meets, item_text, meets, mutation_matches, mutation_view, proposal,
    proposal_text, proposals, Proposal,
};
use crate::error::{AppError, Fault};
use crate::store::{item_in, items_of, open_conflicts, SessionMessage, Store};
use crate::sync::ContextMutation;
use crate::text::{
    debug_pairs, decimal, decimal_of, join, joined, pairs_form, same, text_pairs, texts,
};
use vstd::prelude::*;

verus! {

/// The id of the check on how many contradictions are open.
pub const CONFLICTS_CHECK_ID: &'static str = "conflicts:count";

// ---------------------------------------------------------------------------
// Checks on changes
// ---------------------------------------------------------------------------

/// The first change that is what is expected.
pub open spec fn first_met(
    all: Seq<Proposal>,
    e: StructuralMutationExpectation,
    messages: Seq<SessionMessage>,
) -> Option<Proposal>
    decreases all.len(),
{
    if all.len() == 0 {
        None
    } else if meets(all[0], e, messages) {
        Some(all[0])
    } else {
        first_met(all.drop_first(), e, messages)
    }
}

/// What was proposed, in words.
pub open spec fn extracted_text(all: Seq<Proposal>) -> Seq<char> {
    if all.len() == 0 {
        "extractor produced no mutations"@
    } else {
        "extracted: "@ + joined(all.map_values(|p: Proposal| proposal_text(p)), " | "@)
    }
}

/// The check that some change is what is required.
pub open spec fn required_check(
    e: StructuralMutationExpectation,
    all: Seq<Proposal>,
    messages: Seq<SessionMessage>,
) -> Check {
    let met = first_met(all, e, messages) is Some;
    Check {
        id: "required:"@ + e.id@,
        passed: met,
        detail: if met {
            Seq::empty()
        } else {
            "no mutation matches ("@ + expectation_text(e) + "); "@ + extracted_text(all)
        },
    }
}

/// The check that no change is what is forbidden.
pub open spec fn forbidden_check(
    e: StructuralMutationExpectation,
    all: Seq<Proposal>,
    messages: Seq<SessionMessage>,
) -> Check {
    match first_met(all, e, messages) {
        None => Check { id: "forbidden:"@ + e.id@, passed: true, detail: Seq::empty() },
        Some(p) => Check {
            id: "forbidden:"@ + e.id@,
            passed: false,
            detail: "produced "@ + proposal_text(p) + " matching ("@ + expectation_text(e) + ")"@,
        },
    }
}

fn find_met(
    mutations: &Vec<ContextMutation>,
    exp: &StructuralMutationExpectation,
    messages: &Vec<SessionMessage>,
) -> (r: Option<usize>)
    ensures
        match r {
            Some(i) => i < mutations@.len() && first_met(proposals(mutations@), *exp, messages@)
                == Some(proposal(mutations@[i as int])),
            None => first_met(proposals(mutations@), *exp, messages@) is None,
        },
{
    let ghost all = proposals(mutations@);
    let mut i: usize = 0;
    assert(all.skip(0) =~= all);
    while i < mutations.len()
        invariant
            i <= mutations@.len(),
            all == proposals(mutations@),
            first_met(all, *exp, messages@) == first_met(all.skip(i as int), *exp, messages@),
        decreases mutations@.len() - i,
    {
        assert(all.skip(i as int)[0] == proposal(mutations@[i as int]));
        assert(all.skip(i as int).drop_first() =~= all.skip(i + 1));
        let v = mutation_view(&mutations[i]);
        if mutation_matches(&v, exp, messages) {
            return Some(i);
        }
        i = i + 1;
    }
    None
}

fn describe_all(mutations: &Vec<ContextMutation>) -> (r: String)
    ensures
        r@ == extracted_text(proposals(mutations@)),
{
    let ghost all = proposals(mutations@);
    let ghost told = all.map_values(|p: Proposal| proposal_text(p));
    assert(all.len() == mutations@.len());
    if mutations.len() == 0 {
        return "extractor produced no mutations".to_owned();
    }
    let mut parts: Vec<String> = Vec::new();
    let mut i: usize = 0;
    assert(texts(parts@) =~= told.take(0));
    while i < mutations.len()
        invariant
            i <= mutations@.len(),
            all == proposals(mutations@),
            told == all.map_values(|p: Proposal| proposal_text(p)),
            texts(parts@) == told.take(i as int),
        decreases mutations@.len() - i,
    {
        assert(all[i as int] == proposal(mutations@[i as int]));
        let ghost before = texts(parts@);
        let v = mutation_view(&mutations[i]);
        let s = describe_mutation(&v);
        parts.push(s);
        assert(texts(parts@) =~= before.push(s@));
        i = i + 1;
        assert(told.take(i as int) =~= told.take(i - 1).push(told[i - 1]));
    }
    assert(told.take(i as int) =~= told);
    let mut r: String = "extracted: ".to_owned();
    r.append(join(&parts, " | ").as_str());
    r
}

fn labelled(family: &str, id: &str) -> (r: String)
    ensures
        r@ == family@ + id@,
{
    let mut s: String = family.to_owned();
    s.append(id);
    s
}

fn no_detail() -> (r: String)
    ensures
        r@ == Seq::<char>::empty(),
{
    String::new()
}

/// The checks that are required of changes.
pub open spec fn required_checks(
    list: Seq<StructuralMutationExpectation>,
    all: Seq<Proposal>,
    messages: Seq<SessionMessage>,
) -> Seq<Check> {
    list.map_values(|e: StructuralMutationExpectation| required_check(e, all, messages))
}

/// The checks on what is forbidden of changes.
pub open spec fn forbidden_checks(
    list: Seq<StructuralMutationExpectation>,
    all: Seq<Proposal>,
    messages: Seq<SessionMessage>,
) -> Seq<Check> {
    list.map_values(|e: StructuralMutationExpectation| forbidden_check(e, all, messages))
}

fn check_required(
    out: &mut Vec<CheckResult>,
    list: &Vec<StructuralMutationExpectation>,
    mutations: &Vec<ContextMutation>,
    messages: &Vec<SessionMessage>,
)
    ensures
        final(out).deep_view() == old(out).deep_view() + required_checks(
            list@,
            proposals(mutations@),
            messages@,
        ),
{
    let ghost all = proposals(mutations@);
    let ghost before = out.deep_view();
    let mut i: usize = 0;
    assert(out.deep_view() =~= before + required_checks(list@.take(0), all, messages@));
    while i < list.len()
        invariant
            i <= list@.len(),
            all == proposals(mutations@),
            before == old(out).deep_view(),
            out.deep_view() == before + required_checks(list@.take(i as int), all, messages@),
        decreases list@.len() - i,
    {
        let ghost so_far = out.deep_view();
        let exp = &list[i];
        let matched = find_met(mutations, exp, messages);
        let detail: String = if matched.is_some() {
            no_detail()
        } else {
            let mut d: String = "no mutation matches (".to_owned();
            d.append(describe_expectation(exp).as_str());
            d.append("); ");
            d.append(describe_all(mutations).as_str());
            d
        };
        let c = CheckResult {
            id: labelled("required:", exp.id.as_str()),
            passed: matched.is_some(),
            detail,
        };
        assert(c.deep_view() == required_check(list@[i as int], all, messages@));
        out.push(c);
        assert(out.deep_view() =~= so_far.push(c.deep_view()));
        i = i + 1;
        assert(required_checks(list@.take(i as int), all, messages@) =~= required_checks(
            list@.take(i - 1),
            all,
            messages@,
        ).push(required_check(list@[i - 1], all, messages@)));
        assert(out.deep_view() =~= before + required_checks(list@.take(i as int), all, messages@));
    }
    assert(list@.take(i as int) =~= list@);
}

fn check_forbidden(
    out: &mut Vec<CheckResult>,
    list: &Vec<StructuralMutationExpectation>,
    mutations: &Vec<ContextMutation>,
    messages: &Vec<SessionMessage>,
)
    ensures
        final(out).deep_view() == old(out).deep_view() + forbidden_checks(
            list@,
            proposals(mutations@),
            messages@,
        ),
{
    let ghost all = proposals(mutations@);
    let ghost before = out.deep_view();
    let mut i: usize = 0;
    assert(out.deep_view() =~= before + forbidden_checks(list@.take(0), all, messages@));
    while i < list.len()
        invariant
            i <= list@.len(),
            all == proposals(mutations@),
            before == old(out).deep_view(),
            out.deep_view() == before + forbidden_checks(list@.take(i as int), all, messages@),
        decreases list@.len() - i,
    {
        let ghost so_far = out.deep_view();
        let exp = &list[i];
        let violated = find_met(mutations, exp, messages);
        let detail: String = match violated {
            None => no_detail(),
            Some(k) => {
                let v = mutation_view(&mutations[k]);
                let mut d: String = "produced ".to_owned();
                d.append(describe_mutation(&v).as_str());
                d.append(" matching (");
                d.append(describe_expectation(exp).as_str());
                d.append(")");
                d
            },
        };
        let c = CheckResult {
            id: labelled("forbidden:", exp.id.as_str()),
            passed: violated.is_none(),
            detail,
        };
        assert(c.deep_view() == forbidden_check(list@[i as int], all, messages@));
        out.push(c);
        assert(out.deep_view() =~= so_far.push(c.deep_view()));
        i = i + 1;
        assert(forbidden_checks(list@.take(i as int), all, messages@) =~= forbidden_checks(
            list@.take(i - 1),
            all,
            messages@,
        ).push(forbidden_check(list@[i - 1], all, messages@)));
        assert(out.deep_view() =~= before + forbidden_checks(list@.take(i as int), all, messages@));
    }
    assert(list@.take(i as int) =~= list@);
}

// ---------------------------------------------------------------------------
// Checks on the core of contexts
// ---------------------------------------------------------------------------

/// The kinds and titles at the core of a workstream's context.
pub open spec fn core_pairs(store: Store, workstream: Seq<char>, kinds: Seq<String>) -> Seq<
    (Seq<char>, Seq<char>),
> {
    core_of(items_of(store.items@, workstream), kinds).map_values(
        |s: ContextSection| (s.kind@, s.title@),
    )
}

fn effective_core(store: &Store, workstream_id: &str, kinds: &Vec<String>) -> (r: Vec<
    (String, String),
>)
    ensures
        text_pairs(r@) == core_pairs(*store, workstream_id@, kinds@),
{
    let sections = resolve_core_context(store, workstream_id, kinds);
    let ghost all = core_pairs(*store, workstream_id@, kinds@);
    let mut out: Vec<(String, String)> = Vec::new();
    let mut i: usize = 0;
    assert(text_pairs(out@) =~= all.take(0));
    while i < sections.len()
        invariant
            i <= sections@.len(),
            all == sections@.map_values(|s: ContextSection| (s.kind@, s.title@)),
            text_pairs(out@) == all.take(i as int),
        decreases sections@.len() - i,
    {
        let ghost before = text_pairs(out@);
        out.push((sections[i].kind.clone(), sections[i].title.clone()));
        assert(text_pairs(out@) =~= before.push(all[i as int]));
        i = i + 1;
        assert(all.take(i as int) =~= all.take(i - 1).push(all[i - 1]));
    }
    assert(all.take(i as int) =~= all);
    out
}

/// The first item at the core that is what is expected.
pub open spec fn first_item(
    all: Seq<(Seq<char>, Seq<char>)>,
    e: ContextItemExpectation,
) -> Option<(Seq<char>, Seq<char>)>
    decreases all.len(),
{
    if all.len() == 0 {
        None
    } else if item_meets(all[0].0, all[0].1, e) {
        Some(all[0])
    } else {
        first_item(all.drop_first(), e)
    }
}

fn find_item(all: &Vec<(String, String)>, exp: &ContextItemExpectation) -> (r: Option<usize>)
    ensures
        match r {
            Some(i) => i < all@.len() && first_item(text_pairs(all@), *exp) == Some(
                (all@[i as int].0@, all@[i as int].1@),
            ),
            None => first_item(text_pairs(all@), *exp) is None,
        },
{
    let ghost pairs = text_pairs(all@);
    let mut i: usize = 0;
    assert(pairs.skip(0) =~= pairs);
    while i < all.len()
        invariant
            i <= all@.len(),
            pairs == text_pairs(all@),
            first_item(pairs, *exp) == first_item(pairs.skip(i as int), *exp),
        decreases all@.len() - i,
    {
        assert(pairs.skip(i as int)[0] == (all@[i as int].0@, all@[i as int].1@));
        assert(pairs.skip(i as int).drop_first() =~= pairs.skip(i + 1));
        if context_matches(all[i].0.as_str(), all[i].1.as_str(), exp) {
            return Some(i);
        }
        i = i + 1;
    }
    None
}

/// The check that an item is at the core.
pub open spec fn present_check(
    workstream: Seq<char>,
    e: ContextItemExpectation,
    effective: Seq<(Seq<char>, Seq<char>)>,
) -> Check {
    let present = first_item(effective, e) is Some;
    Check {
        id: "required_context:"@ + e.id@,
        passed: present,
        detail: if present {
            Seq::empty()
        } else {
            "missing in "@ + workstream + ": ("@ + item_text(e) + "); effective: "@ + pairs_form(
                effective,
            )
        },
    }
}

/// The check that an item is not at the core.
pub open spec fn absent_check(
    workstream: Seq<char>,
    e: ContextItemExpectation,
    effective: Seq<(Seq<char>, Seq<char>)>,
) -> Check {
    match first_item(effective, e) {
        None => Check { id: "forbidden_context:"@ + e.id@, passed: true, detail: Seq::empty() },
        Some((kind, title)) => Check {
            id: "forbidden_context:"@ + e.id@,
            passed: false,
            detail: "(\""@ + kind + "\", \""@ + title + "\") present in "@ + workstream
                + ", matches ("@ + item_text(e) + ")"@,
        },
    }
}

/// The checks of one family on the cores of contexts.
pub open spec fn context_checks(
    required: bool,
    list: Seq<ContextExpectations>,
    store: Store,
    kinds: Seq<String>,
) -> Seq<Check>
    decreases list.len(),
{
    if list.len() == 0 {
        Seq::empty()
    } else {
        let w = list.last().workstream_id@;
        let effective = core_pairs(store, w, kinds);
        context_checks(required, list.drop_last(), store, kinds)
            + list.last().items@.map_values(
            |e: ContextItemExpectation|
                if required {
                    present_check(w, e, effective)
                } else {
                    absent_check(w, e, effective)
                },
        )
    }
}

fn check_present(
    workstream_id: &str,
    exp: &ContextItemExpectation,
    effective: &Vec<(String, String)>,
) -> (r: CheckResult)
    ensures
        r.deep_view() == present_check(workstream_id@, *exp, text_pairs(effective@)),
{
    let present: bool = find_item(effective, exp).is_some();
    let detail: String = if present {
        no_detail()
    } else {
        let mut d: String = "missing in ".to_owned();
        d.append(workstream_id);
        d.append(": (");
        d.append(describe_context_expectation(exp).as_str());
        d.append("); effective: ");
        d.append(debug_pairs(effective).as_str());
        d
    };
    CheckResult { id: labelled("required_context:", exp.id.as_str()), passed: present, detail }
}

fn check_absent(
    workstream_id: &str,
    exp: &ContextItemExpectation,
    effective: &Vec<(String, String)>,
) -> (r: CheckResult)
    ensures
        r.deep_view() == absent_check(workstream_id@, *exp, text_pairs(effective@)),
{
    let found = find_item(effective, exp);
    let detail: String = match found {
        None => no_detail(),
        Some(i) => {
            let mut d: String = "(\"".to_owned();
            d.append(effective[i].0.as_str());
            d.append("\", \"");
            d.append(effective[i].1.as_str());
            d.append("\") present in ");
            d.append(workstream_id);
            d.append(", matches (");
            d.append(describe_context_expectation(exp).as_str());
            d.append(")");
            d
        },
    };
    CheckResult {
        id: labelled("forbidden_context:", exp.id.as_str()),
        passed: found.is_none(),
        detail,
    }
}

fn check_one_context(
    out: &mut Vec<CheckResult>,
    required: bool,
    expected: &ContextExpectations,
    store: &Store,
    kinds: &Vec<String>,
)
    ensures
        final(out).deep_view() == old(out).deep_view() + expected.items@.map_values(
            |e: ContextItemExpectation|
                if required {
                    present_check(
                        expected.workstream_id@,
                        e,
                        core_pairs(*store, expected.workstream_id@, kinds@),
                    )
                } else {
                    absent_check(
                        expected.workstream_id@,
                        e,
                        core_pairs(*store, expected.workstream_id@, kinds@),
                    )
                },
        ),
{
    let w: &str = expected.workstream_id.as_str();
    let effective = effective_core(store, w, kinds);
    let ghost pairs = core_pairs(*store, w@, kinds@);
    let ghost f = |e: ContextItemExpectation|
        if required {
            present_check(expected.workstream_id@, e, pairs)
        } else {
            absent_check(expected.workstream_id@, e, pairs)
        };
    let ghost before = out.deep_view();
    let ghost list = expected.items@;
    let mut i: usize = 0;
    assert(out.deep_view() =~= before + list.take(0).map_values(f));
    while i < expected.items.len()
        invariant
            i <= expected.items@.len(),
            list == expected.items@,
            w@ == expected.workstream_id@,
            pairs == text_pairs(effective@),
            f == (|e: ContextItemExpectation|
                if required {
                    present_check(expected.workstream_id@, e, pairs)
                } else {
                    absent_check(expected.workstream_id@, e, pairs)
                }),
            before == old(out).deep_view(),
            out.deep_view() == before + list.take(i as int).map_values(f),
        decreases expected.items@.len() - i,
    {
        let ghost so_far = out.deep_view();
        let c: CheckResult = if required {
            check_present(w, &expected.items[i], &effective)
        } else {
            check_absent(w, &expected.items[i], &effective)
        };
        assert(c.deep_view() == f(list[i as int]));
        out.push(c);
        assert(out.deep_view() =~= so_far.push(c.deep_view()));
        i = i + 1;
        assert(list.take(i as int).map_values(f) =~= list.take(i - 1).map_values(f).push(
            f(list[i - 1]),
        ));
        assert(out.deep_view() =~= before + list.take(i as int).map_values(f));
    }
    assert(list.take(i as int) =~= list);
}

fn check_contexts(
    out: &mut Vec<CheckResult>,
    required: bool,
    list: &Vec<ContextExpectations>,
    store: &Store,
    kinds: &Vec<String>,
)
    ensures
        final(out).deep_view() == old(out).deep_view() + context_checks(
            required,
            list@,
            *store,
            kinds@,
        ),
{
    let ghost before = out.deep_view();
    let mut i: usize = 0;
    assert(list@.take(0) =~= Seq::<ContextExpectations>::empty());
    assert(out.deep_view() =~= before + context_checks(required, list@.take(0), *store, kinds@));
    while i < list.len()
        invariant
            i <= list@.len(),
            before == old(out).deep_view(),
            out.deep_view() == before + context_checks(
                required,
                list@.take(i as int),
                *store,
                kinds@,
            ),
        decreases list@.len() - i,
    {
        assert(list@.take(i + 1).drop_last() =~= list@.take(i as int));
        assert(list@.take(i + 1).last() == list@[i as int]);
        check_one_context(out, required, &list[i], store, kinds);
        i = i + 1;
        assert(out.deep_view() =~= before + context_checks(
            required,
            list@.take(i as int),
            *store,
            kinds@,
        ));
    }
    assert(list@.take(i as int) =~= list@);
}

// ---------------------------------------------------------------------------
// Checks on items and contradictions
// ---------------------------------------------------------------------------

/// The check that an item has a status.
pub open spec fn status_check(e: ItemStatusExpectation, store: Store) -> Check {
    let actual = match item_in(store.items@, e.item_id@) {
        Some(row) => Some(row.item.status@),
        None => None,
    };
    let satisfied = actual == Some(e.status@);
    Check {
        id: "item_status:"@ + e.id@,
        passed: satisfied,
        detail: if satisfied {
            Seq::empty()
        } else {
            "item "@ + e.item_id@ + " must have status '"@ + e.status@ + "', actual "@ + (
            match actual {
                Some(s) => "'"@ + s + "'"@,
                None => "<missing>"@,
            })
        },
    }
}

/// The checks on the status of items.
pub open spec fn status_checks(list: Seq<ItemStatusExpectation>, store: Store) -> Seq<Check> {
    list.map_values(|e: ItemStatusExpectation| status_check(e, store))
}

fn check_status(exp: &ItemStatusExpectation, store: &Store) -> (r: CheckResult)
    ensures
        r.deep_view() == status_check(*exp, *store),
{
    let row = store.get_item(exp.item_id.as_str());
    let satisfied: bool = match row {
        Some(x) => same(x.item.status.as_str(), exp.status.as_str()),
        None => false,
    };
    let detail: String = if satisfied {
        no_detail()
    } else {
        let mut d: String = "item ".to_owned();
        d.append(exp.item_id.as_str());
        d.append(" must have status '");
        d.append(exp.status.as_str());
        d.append("', actual ");
        let actual: String = match row {
            Some(x) => {
                let mut s: String = "'".to_owned();
                s.append(x.item.status.as_str());
                s.append("'");
                s
            },
            None => "<missing>".to_owned(),
        };
        d.append(actual.as_str());
        d
    };
    CheckResult { id: labelled("item_status:", exp.id.as_str()), passed: satisfied, detail }
}

fn check_statuses(out: &mut Vec<CheckResult>, list: &Vec<ItemStatusExpectation>, store: &Store)
    ensures
        final(out).deep_view() == old(out).deep_view() + status_checks(list@, *store),
{
    let ghost before = out.deep_view();
    let mut i: usize = 0;
    assert(out.deep_view() =~= before + status_checks(list@.take(0), *store));
    while i < list.len()
        invariant
            i <= list@.len(),
            before == old(out).deep_view(),
            out.deep_view() == before + status_checks(list@.take(i as int), *store),
        decreases list@.len() - i,
    {
        let ghost so_far = out.deep_view();
        let c = check_status(&list[i], store);
        out.push(c);
        assert(out.deep_view() =~= so_far.push(c.deep_view()));
        i = i + 1;
        assert(status_checks(list@.take(i as int), *store) =~= status_checks(
            list@.take(i - 1),
            *store,
        ).push(status_check(list@[i - 1], *store)));
        assert(out.deep_view() =~= before + status_checks(list@.take(i as int), *store));
    }
    assert(list@.take(i as int) =~= list@);
}

/// How many contradictions are open in all workstreams of a fixture.
pub open spec fn total_conflicts(list: Seq<FixtureWorkstream>, store: Store) -> nat
    decreases list.len(),
{
    if list.len() == 0 {
        0
    } else {
        total_conflicts(list.drop_last(), store) + open_conflicts(
            store.conflicts@,
            list.last().id@,
        )
    }
}

proof fn conflicts_grow(list: Seq<FixtureWorkstream>, store: Store, n: int)
    requires
        0 <= n <= list.len(),
    ensures
        total_conflicts(list.take(n), store) <= total_conflicts(list, store),
    decreases list.len() - n,
{
    if n == list.len() {
        assert(list.take(n) =~= list);
    } else {
        assert(list.take(n + 1).drop_last() =~= list.take(n));
        conflicts_grow(list, store, n + 1);
    }
}

/// How many contradictions are open in all workstreams of a fixture.
pub fn count_conflicts(list: &Vec<FixtureWorkstream>, store: &Store) -> (r: usize)
    requires
        total_conflicts(list@, *store) <= usize::MAX,
    ensures
        r == total_conflicts(list@, *store),
{
    let mut n: usize = 0;
    let mut i: usize = 0;
    assert(list@.take(0) =~= Seq::<FixtureWorkstream>::empty());
    while i < list.len()
        invariant
            i <= list@.len(),
            total_conflicts(list@, *store) <= usize::MAX,
            n == total_conflicts(list@.take(i as int), *store),
        decreases list@.len() - i,
    {
        assert(list@.take(i + 1).drop_last() =~= list@.take(i as int));
        assert(list@.take(i + 1).last() == list@[i as int]);
        proof {
            conflicts_grow(list@, *store, i + 1);
        }
        n = n + store.open_conflict_count(list[i].id.as_str());
        i = i + 1;
    }
    assert(list@.take(i as int) =~= list@);
    n
}

/// The check on how many contradictions are open.
pub open spec fn conflicts_check(expected: usize, actual: nat) -> Check {
    Check {
        id: "conflicts:count"@,
        passed: actual == expected,
        detail: if actual == expected {
            Seq::empty()
        } else {
            "expected "@ + decimal(expected as nat) + " open conflicts, actual "@ + decimal(actual)
        },
    }
}

// ---------------------------------------------------------------------------
// All checks
// ---------------------------------------------------------------------------

/// All checks of a fixture, on what came out.
pub open spec fn gold_checks(
    f: ContextQualityFixture,
    store: Store,
    messages: Seq<SessionMessage>,
    mutations: Seq<ContextMutation>,
    kinds: Seq<String>,
) -> Seq<Check> {
    let gold = f.extractor_gold;
    let all = proposals(mutations);
    (required_checks(gold.required_mutations@, all, messages) + forbidden_checks(
        gold.forbidden_mutations@,
        all,
        messages,
    ) + context_checks(true, gold.required_context@, store, kinds) + context_checks(
        false,
        gold.forbidden_context@,
        store,
        kinds,
    ) + status_checks(gold.required_item_status@, store)).push(
        conflicts_check(gold.conflicts_count, total_conflicts(f.input.workstreams@, store)),
    )
}

/// The outcome of a fixture.
pub open spec fn is_outcome_of(
    r: EvalCaseResult,
    f: ContextQualityFixture,
    checks: Seq<Check>,
) -> bool {
    &&& r.fixture_name@ == f.name@
    &&& r.dimension@ == f.dimension@
    &&& r.description@ == f.description@
    &&& r.checks.deep_view() == checks
}

/// Runs all checks of a fixture on what came out: the rows after the changes, the conversation,
/// and the changes that were proposed.
pub fn evaluate_extractor_gold(
    fixture: &ContextQualityFixture,
    store: &Store,
    messages: &Vec<SessionMessage>,
    mutations: &Vec<ContextMutation>,
    kinds: &Vec<String>,
) -> (r: EvalCaseResult)
    requires
        total_conflicts(fixture.input.workstreams@, *store) <= usize::MAX,
    ensures
        is_outcome_of(
            r,
            *fixture,
            gold_checks(*fixture, *store, messages@, mutations@, kinds@),
        ),
{
    let gold = &fixture.extractor_gold;
    let mut checks: Vec<CheckResult> = Vec::new();
    assert(checks.deep_view() =~= Seq::<Check>::empty());
    check_required(&mut checks, &gold.required_mutations, mutations, messages);
    check_forbidden(&mut checks, &gold.forbidden_mutations, mutations, messages);
    check_contexts(&mut checks, true, &gold.required_context, store, kinds);
    check_contexts(&mut checks, false, &gold.forbidden_context, store, kinds);
    check_statuses(&mut checks, &gold.required_item_status, store);
    let open: usize = count_conflicts(&fixture.input.workstreams, store);
    let passed: bool = open == gold.conflicts_count;
    let detail: String = if passed {
        no_detail()
    } else {
        let mut d: String = "expected ".to_owned();
        d.append(decimal_of(gold.conflicts_count as u64).as_str());
        d.append(" open conflicts, actual ");
        d.append(decimal_of(open as u64).as_str());
        d
    };
    let c = CheckResult { id: CONFLICTS_CHECK_ID.to_owned(), passed, detail };
    let ghost so_far = checks.deep_view();
    checks.push(c);
    assert(checks.deep_view() =~= so_far.push(c.deep_view()));
    assert(checks.deep_view() =~= gold_checks(*fixture, *store, messages@, mutations@, kinds@));
    EvalCaseResult {
        fixture_name: fixture.name.clone(),
        dimension: fixture.dimension.clone(),
        description: fixture.description.clone(),
        checks,
    }
}

fn in_fixture(name: &str, what: &str, why: &str) -> (e: AppError)
    ensures
        e.deep_view() == Fault::Other("fixture "@ + name@ + ": "@ + what@ + why@),
{
    let mut m: String = "fixture ".to_owned();
    m.append(name);
    m.append(": ");
    m.append(what);
    m.append(why);
    AppError::Other(m)
}

/// A run of an extractor on a fixture: what could be read for its prompt, what it proposed, and
/// the rows after the changes, each as far as it came.
pub struct ExtractorRun {
    pub extractor: String,
    pub inputs: Result<(), String>,
    pub extracted: Result<Vec<ContextMutation>, String>,
    pub merged: Result<Store, String>,
}

/// The outcome of a fixture with an extractor. A check that fails is an outcome; only a run that
/// broke off is an error.
pub fn evaluate_extractor(
    fixture: &ContextQualityFixture,
    messages: &Vec<SessionMessage>,
    run: &ExtractorRun,
    kinds: &Vec<String>,
) -> (r: Result<EvalCaseResult, AppError>)
    requires
        run.merged matches Ok(store) ==> total_conflicts(fixture.input.workstreams@, store)
            <= usize::MAX,
    ensures
        match (run.inputs, run.extracted, run.merged) {
            (Err(why), _, _) => r matches Err(e) && e.deep_view() == Fault::Other(
                "fixture "@ + fixture.name@ + ": "@ + "snapshot prompt inputs failed: "@ + why@,
            ),
            (Ok(_), Err(why), _) => r matches Err(e) && e.deep_view() == Fault::Other(
                "fixture "@ + fixture.name@ + ": "@ + ("extractor '"@ + run.extractor@
                    + "' failed: "@) + why@,
            ),
            (Ok(_), Ok(_), Err(why)) => r matches Err(e) && e.deep_view() == Fault::Other(
                "fixture "@ + fixture.name@ + ": "@ + "merge extracted mutations failed: "@ + why@,
            ),
            (Ok(_), Ok(mutations), Ok(store)) => r matches Ok(o) && is_outcome_of(
                o,
                *fixture,
                gold_checks(*fixture, store, messages@, mutations@, kinds@),
            ),
        },
{
    let name: &str = fixture.name.as_str();
    match &run.inputs {
        Err(why) => {
            return Err(in_fixture(name, "snapshot prompt inputs failed: ", why.as_str()));
        },
        Ok(_) => {},
    }
    let mutations = match &run.extracted {
        Ok(m) => m,
        Err(why) => {
            let mut what: String = "extractor '".to_owned();
            what.append(run.extractor.as_str());
            what.append("' failed: ");
            return Err(in_fixture(name, what.as_str(), why.as_str()));
        },
    };
    match &run.merged {
        Ok(store) => Ok(evaluate_extractor_gold(fixture, store, messages, mutations, kinds)),
        Err(why) => Err(in_fixture(name, "merge extracted mutations failed: ", why.as_str())),
    }
}

// ---------------------------------------------------------------------------
// The exact layer
// ---------------------------------------------------------------------------

/// Where the state that follows from a recorded answer first differs from the expected one.
pub enum GoldMismatch {
    /// So many changes were expected, so many were read.
    MutationCount { expected: usize, actual: usize },
    /// A change is not the expected one.
    Mutation { index: usize },
    /// The core of a workstream's context is not the expected one.
    Core { index: usize },
    /// So many open contradictions were expected, so many there are.
    Conflicts { expected: usize, actual: usize },
}

/// Whether a change is exactly the expected one.
pub open spec fn is_expected(m: ContextMutation, e: ExpectedMutation) -> bool {
    match m {
        ContextMutation::Add { workstream_id, item_kind, title, content, source_refs, authority }
        => e.op@ == "add"@ && agrees(Some(workstream_id@), e.workstream_id) && agrees(
            Some(item_kind@),
            e.item_kind,
        ) && agrees(Some(title@), e.title) && agrees(Some(authority@), e.authority),
        ContextMutation::Update { item_id, title, content, source_refs, authority } => e.op@
            == "update"@ && agrees(Some(item_id@), e.item_id) && agrees(Some(title@), e.title)
            && agrees(Some(authority@), e.authority),
        ContextMutation::Supersede { item_id, title, content, source_refs, authority } => e.op@
            == "supersede"@ && agrees(Some(item_id@), e.item_id) && agrees(Some(title@), e.title)
            && agrees(Some(authority@), e.authority),
        ContextMutation::Resolve { item_id, source_refs } => e.op@ == "resolve"@ && agrees(
            Some(item_id@),
            e.item_id,
        ),
        _ => false,
    }
}

/// Whether the core of a context is exactly the expected one.
pub open spec fn is_expected_core(e: ExpectedCore, store: Store, kinds: Seq<String>) -> bool {
    core_pairs(store, e.workstream_id@, kinds) == e.items@.map_values(
        |i: ExpectedCoreItem| (i.kind@, i.title@),
    )
}

fn text_agrees(actual: &String, expected: &Option<String>) -> (r: bool)
    ensures
        r == agrees(Some(actual@), *expected),
{
    match expected {
        Some(e) => same(actual.as_str(), e.as_str()),
        None => true,
    }
}

fn mutation_is_expected(m: &ContextMutation, e: &ExpectedMutation) -> (r: bool)
    ensures
        r == is_expected(*m, *e),
{
    let op: &str = e.op.as_str();
    match m {
        ContextMutation::Add { workstream_id, item_kind, title, content, source_refs, authority }
        => same(op, "add") && text_agrees(workstream_id, &e.workstream_id) && text_agrees(
            item_kind,
            &e.item_kind,
        ) && text_agrees(title, &e.title) && text_agrees(authority, &e.authority),
        ContextMutation::Update { item_id, title, content, source_refs, authority } => same(
            op,
            "update",
        ) && text_agrees(item_id, &e.item_id) && text_agrees(title, &e.title) && text_agrees(
            authority,
            &e.authority,
        ),
        ContextMutation::Supersede { item_id, title, content, source_refs, authority } => same(
            op,
            "supersede",
        ) && text_agrees(item_id, &e.item_id) && text_agrees(title, &e.title) && text_agrees(
            authority,
            &e.authority,
        ),
        ContextMutation::Resolve { item_id, source_refs } => same(op, "resolve") && text_agrees(
            item_id,
            &e.item_id,
        ),
        _ => false,
    }
}

fn core_is_expected(e: &ExpectedCore, store: &Store, kinds: &Vec<String>) -> (r: bool)
    ensures
        r == is_expected_core(*e, *store, kinds@),
{
    let actual = effective_core(store, e.workstream_id.as_str(), kinds);
    let ghost a = text_pairs(actual@);
    let ghost x = e.items@.map_values(|i: ExpectedCoreItem| (i.kind@, i.title@));
    assert(a.len() == actual@.len() && x.len() == e.items@.len());
    if actual.len() != e.items.len() {
        return false;
    }
    let mut i: usize = 0;
    while i < actual.len()
        invariant
            i <= actual@.len(),
            actual@.len() == e.items@.len(),
            a == text_pairs(actual@),
            a == core_pairs(*store, e.workstream_id@, kinds@),
            x == e.items@.map_values(|i: ExpectedCoreItem| (i.kind@, i.title@)),
            forall|k: int| 0 <= k < i ==> #[trigger] a[k] == x[k],
        decreases actual@.len() - i,
    {
        assert(a[i as int] == (actual@[i as int].0@, actual@[i as int].1@));
        assert(x[i as int] == (e.items@[i as int].kind@, e.items@[i as int].title@));
        if !same(actual[i].0.as_str(), e.items[i].kind.as_str()) || !same(
            actual[i].1.as_str(),
            e.items[i].title.as_str(),
        ) {
            assert(a[i as int] != x[i as int]);
            return false;
        }
        i = i + 1;
    }
    assert(a =~= x);
    true
}

/// Where the changes first differ from the expected ones.
pub open spec fn mutations_differ(
    actual: Seq<ContextMutation>,
    expected: Seq<ExpectedMutation>,
    r: Option<GoldMismatch>,
) -> bool {
    match r {
        Some(GoldMismatch::MutationCount { expected: e, actual: a }) => a == actual.len() && e
            == expected.len() && a != e,
        Some(GoldMismatch::Mutation { index }) => actual.len() == expected.len() && index
            < actual.len() && !is_expected(actual[index as int], expected[index as int])
            && forall|k: int|
            0 <= k < index ==> is_expected(#[trigger] actual[k], expected[k]),
        Some(_) => false,
        None => actual.len() == expected.len() && forall|k: int|
            0 <= k < actual.len() ==> is_expected(#[trigger] actual[k], expected[k]),
    }
}

/// Where the state first differs from the expected one.
pub open spec fn state_differs(
    f: ContextQualityFixture,
    store: Store,
    kinds: Seq<String>,
    r: Option<GoldMismatch>,
) -> bool {
    let cores = f.gold.effective_context@;
    let open = total_conflicts(f.input.workstreams@, store);
    match r {
        Some(GoldMismatch::Core { index }) => index < cores.len() && !is_expected_core(
            cores[index as int],
            store,
            kinds,
        ) && forall|k: int|
            0 <= k < index ==> is_expected_core(#[trigger] cores[k], store, kinds),
        Some(GoldMismatch::Conflicts { expected, actual }) => expected == f.gold.conflicts_count
            && actual == open && open != expected && forall|k: int|
            0 <= k < cores.len() ==> is_expected_core(#[trigger] cores[k], store, kinds),
        Some(_) => false,
        None => open == f.gold.conflicts_count && forall|k: int|
            0 <= k < cores.len() ==> is_expected_core(#[trigger] cores[k], store, kinds),
    }
}

fn compare_mutations(actual: &Vec<ContextMutation>, expected: &Vec<ExpectedMutation>) -> (r: Option<
    GoldMismatch,
>)
    ensures
        mutations_differ(actual@, expected@, r),
{
    if actual.len() != expected.len() {
        return Some(
            GoldMismatch::MutationCount { expected: expected.len(), actual: actual.len() },
        );
    }
    let mut i: usize = 0;
    while i < actual.len()
        invariant
            i <= actual@.len(),
            actual@.len() == expected@.len(),
            forall|k: int| 0 <= k < i ==> is_expected(#[trigger] actual@[k], expected@[k]),
        decreases actual@.len() - i,
    {
        if !mutation_is_expected(&actual[i], &expected[i]) {
            return Some(GoldMismatch::Mutation { index: i });
        }
        i = i + 1;
    }
    None
}

fn compare_state(fixture: &ContextQualityFixture, store: &Store, kinds: &Vec<String>) -> (r: Option<
    GoldMismatch,
>)
    requires
        total_conflicts(fixture.input.workstreams@, *store) <= usize::MAX,
    ensures
        state_differs(*fixture, *store, kinds@, r),
{
    let cores = &fixture.gold.effective_context;
    let mut i: usize = 0;
    while i < cores.len()
        invariant
            i <= cores@.len(),
            cores == &fixture.gold.effective_context,
            forall|k: int|
                0 <= k < i ==> is_expected_core(#[trigger] cores@[k], *store, kinds@),
        decreases cores@.len() - i,
    {
        if !core_is_expected(&cores[i], store, kinds) {
            return Some(GoldMismatch::Core { index: i });
        }
        i = i + 1;
    }
    let open: usize = count_conflicts(&fixture.input.workstreams, store);
    if open != fixture.gold.conflicts_count {
        return Some(
            GoldMismatch::Conflicts { expected: fixture.gold.conflicts_count, actual: open },
        );
    }
    None
}

/// Compares the state that follows from the recorded answer with the expected one, exactly.
/// `parsed` is what could be read from the answer and `merged` the rows after its changes, each as
/// far as it came. Nothing is returned where everything is as expected.
pub fn run_domain_golden(
    fixture: &ContextQualityFixture,
    parsed: &Result<Vec<ContextMutation>, String>,
    merged: &Result<Store, String>,
    kinds: &Vec<String>,
) -> (r: Result<Option<GoldMismatch>, AppError>)
    requires
        *merged matches Ok(store) ==> total_conflicts(fixture.input.workstreams@, store)
            <= usize::MAX,
    ensures
        match parsed {
            Err(why) => r matches Err(e) && e.deep_view() == Fault::Other(
                "fixture "@ + fixture.name@ + ": "@ + "parse recorded output failed: "@ + why@,
            ),
            Ok(mutations) => if mutations_differ(mutations@, fixture.gold.mutations@, None) {
                match merged {
                    Err(why) => r matches Err(e) && e.deep_view() == Fault::Other(
                        "fixture "@ + fixture.name@ + ": "@
                            + "merge recorded mutations failed: "@ + why@,
                    ),
                    Ok(store) => r matches Ok(m) && state_differs(*fixture, *store, kinds@, m),
                }
            } else {
                r matches Ok(m) && m is Some && mutations_differ(
                    mutations@,
                    fixture.gold.mutations@,
                    m,
                )
            },
        },
{
    let name: &str = fixture.name.as_str();
    let mutations = match parsed {
        Ok(m) => m,
        Err(why) => {
            return Err(in_fixture(name, "parse recorded output failed: ", why.as_str()));
        },
    };
    match compare_mutations(mutations, &fixture.gold.mutations) {
        Some(m) => {
            return Ok(Some(m));
        },
        None => {},
    }
    match merged {
        Err(why) => Err(in_fixture(name, "merge recorded mutations failed: ", why.as_str())),
        Ok(store) => Ok(compare_state(fixture, store, kinds)),
    }
}

} // verus!
