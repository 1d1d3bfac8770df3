//! The fixtures of the corpus, and what makes one well-formed.
use crate::error::{AppError, Fault};
use crate::text::{is_listed, texts};
use vstd::prelude::*;

verus! {

/// A workstream of a fixture.
pub struct FixtureWorkstream {
    pub id: String,
    pub title: String,
    pub description: String,
}

/// An item that is there from the start.
pub struct FixtureInitialItem {
    pub id: String,
    pub workstream_id: String,
    pub kind: String,
    pub title: String,
    pub content: String,
    pub authority: String,
    pub status: String,
}

/// The session of a fixture.
pub struct FixtureSession {
    pub agent: String,
    pub title: String,
}

/// A message of a fixture's conversation.
pub struct FixtureEvent {
    pub sequence: i64,
    pub kind: String,
    pub text: String,
}

/// What a fixture starts with.
pub struct FixtureInput {
    pub workstreams: Vec<FixtureWorkstream>,
    pub initial_context: Vec<FixtureInitialItem>,
    pub session: FixtureSession,
    pub events: Vec<FixtureEvent>,
}

/// A change that the recorded answer proposes.
pub struct ExpectedMutation {
    pub op: String,
    pub workstream_id: Option<String>,
    pub item_kind: Option<String>,
    pub item_id: Option<String>,
    pub title: Option<String>,
    pub authority: Option<String>,
}

/// An item that stands at the core of a context.
pub struct ExpectedCoreItem {
    pub kind: String,
    pub title: String,
}

/// The core of one workstream's context.
pub struct ExpectedCore {
    pub workstream_id: String,
    pub items: Vec<ExpectedCoreItem>,
}

/// The exact state that follows from the recorded answer.
pub struct FixtureGold {
    pub mutations: Vec<ExpectedMutation>,
    pub effective_context: Vec<ExpectedCore>,
    pub conflicts_count: usize,
}

/// What a change must be like. What is left out is not asked.
pub struct StructuralMutationExpectation {
    pub id: String,
    /// Any of these.
    pub op: Vec<String>,
    pub workstream_id: Option<String>,
    /// Any of these.
    pub item_kind: Vec<String>,
    pub item_id: Option<String>,
    /// All of these are in the title.
    pub title_contains: Vec<String>,
    /// All of these are in the content.
    pub content_contains: Vec<String>,
    pub authority: Option<String>,
    /// All of these messages are cited.
    pub source_events: Vec<i64>,
}

/// What an item at the core must be like. What is left out is not asked.
pub struct ContextItemExpectation {
    pub id: String,
    pub kind: Option<String>,
    pub title_contains: Vec<String>,
}

/// What is expected at the core of one workstream's context.
pub struct ContextExpectations {
    pub workstream_id: String,
    pub items: Vec<ContextItemExpectation>,
}

/// The status that an item must have in the end.
pub struct ItemStatusExpectation {
    pub id: String,
    pub item_id: String,
    pub status: String,
}

/// What is asked of an extractor.
pub struct ExtractorGold {
    pub required_mutations: Vec<StructuralMutationExpectation>,
    pub forbidden_mutations: Vec<StructuralMutationExpectation>,
    pub required_context: Vec<ContextExpectations>,
    pub forbidden_context: Vec<ContextExpectations>,
    pub required_item_status: Vec<ItemStatusExpectation>,
    pub conflicts_count: usize,
}

/// One fixture of the corpus.
pub struct ContextQualityFixture {
    pub name: String,
    pub description: String,
    pub dimension: String,
    pub input: FixtureInput,
    pub recorded_model_output: String,
    pub gold: FixtureGold,
    pub extractor_gold: ExtractorGold,
    /// The checks that the extractor under test is known to fail.
    pub heuristic_expected_failed_checks: Vec<String>,
}

// ---------------------------------------------------------------------------
// Checks and their ids
// ---------------------------------------------------------------------------

/// A check: its family and its id.
pub struct CheckName {
    pub family: String,
    pub id: String,
}

/// A check, as a mathematical value.
pub struct Named {
    pub family: Seq<char>,
    pub id: Seq<char>,
}

impl DeepView for CheckName {
    type V = Named;

    open spec fn deep_view(&self) -> Named {
        Named { family: self.family@, id: self.id@ }
    }
}

impl Named {
    /// The id of a check within the whole fixture.
    pub open spec fn label(self) -> Seq<char> {
        self.family + ":"@ + self.id
    }
}

/// The checks on changes, of one family.
pub open spec fn mutation_names(
    family: Seq<char>,
    list: Seq<StructuralMutationExpectation>,
) -> Seq<Named> {
    list.map_values(|e: StructuralMutationExpectation| Named { family, id: e.id@ })
}

/// The checks on the core of contexts, of one family.
pub open spec fn context_names(family: Seq<char>, list: Seq<ContextExpectations>) -> Seq<Named>
    decreases list.len(),
{
    if list.len() == 0 {
        Seq::empty()
    } else {
        context_names(family, list.drop_last()) + list.last().items@.map_values(
            |e: ContextItemExpectation| Named { family, id: e.id@ },
        )
    }
}

/// The checks on the status of items.
pub open spec fn status_names(list: Seq<ItemStatusExpectation>) -> Seq<Named> {
    list.map_values(|e: ItemStatusExpectation| Named { family: "item_status"@, id: e.id@ })
}

/// All named checks of a fixture, in order.
pub open spec fn check_names(gold: ExtractorGold) -> Seq<Named> {
    mutation_names("required"@, gold.required_mutations@) + mutation_names(
        "forbidden"@,
        gold.forbidden_mutations@,
    ) + context_names("required_context"@, gold.required_context@) + context_names(
        "forbidden_context"@,
        gold.forbidden_context@,
    ) + status_names(gold.required_item_status@)
}

/// The ids of checks within the whole fixture.
pub open spec fn labels(names: Seq<Named>) -> Seq<Seq<char>> {
    names.map_values(|n: Named| n.label())
}

/// What is wrong with the first check that is not named well: its id is empty, or it is there
/// already.
pub open spec fn name_fault(fixture: Seq<char>, names: Seq<Named>) -> Option<Seq<char>>
    decreases names.len(),
{
    if names.len() == 0 {
        None
    } else {
        let last = names.last();
        match name_fault(fixture, names.drop_last()) {
            Some(f) => Some(f),
            None => if last.id.len() == 0 {
                Some("fixture '"@ + fixture + "': "@ + last.family + " entry has an empty id"@)
            } else if labels(names.drop_last()).contains(last.label()) {
                Some("fixture '"@ + fixture + "': duplicate check id "@ + last.label())
            } else {
                None
            },
        }
    }
}

/// Whether anything is asked of a change.
pub open spec fn asks_something(e: StructuralMutationExpectation) -> bool {
    e.op@.len() > 0 || e.workstream_id is Some || e.item_kind@.len() > 0 || e.item_id is Some
        || e.title_contains@.len() > 0 || e.content_contains@.len() > 0 || e.authority is Some
        || e.source_events@.len() > 0
}

/// What is wrong with the first check that asks nothing.
pub open spec fn empty_fault(
    fixture: Seq<char>,
    list: Seq<StructuralMutationExpectation>,
) -> Option<Seq<char>>
    decreases list.len(),
{
    if list.len() == 0 {
        None
    } else {
        match empty_fault(fixture, list.drop_last()) {
            Some(f) => Some(f),
            None => if asks_something(list.last()) {
                None
            } else {
                Some(
                    "fixture '"@ + fixture + "': extractor_gold check '"@ + list.last().id@
                        + "' has no constraint and would match every mutation"@,
                )
            },
        }
    }
}

/// What is wrong with a fixture.
pub open spec fn fixture_fault(f: ContextQualityFixture) -> Option<Seq<char>> {
    let gold = f.extractor_gold;
    match name_fault(f.name@, check_names(gold)) {
        Some(x) => Some(x),
        None => match empty_fault(f.name@, gold.required_mutations@) {
            Some(x) => Some(x),
            None => empty_fault(f.name@, gold.forbidden_mutations@),
        },
    }
}

fn constrained(e: &StructuralMutationExpectation) -> (r: bool)
    ensures
        r == asks_something(*e),
{
    e.op.len() > 0 || e.workstream_id.is_some() || e.item_kind.len() > 0 || e.item_id.is_some()
        || e.title_contains.len() > 0 || e.content_contains.len() > 0 || e.authority.is_some()
        || e.source_events.len() > 0
}

fn add_name(out: &mut Vec<CheckName>, family: &str, id: &str)
    ensures
        final(out).deep_view() == old(out).deep_view().push(Named { family: family@, id: id@ }),
{
    let ghost before = out.deep_view();
    out.push(CheckName { family: family.to_owned(), id: id.to_owned() });
    assert(out.deep_view() =~= before.push(Named { family: family@, id: id@ }));
}

fn add_mutation_names(
    out: &mut Vec<CheckName>,
    family: &str,
    list: &Vec<StructuralMutationExpectation>,
)
    ensures
        final(out).deep_view() == old(out).deep_view() + mutation_names(family@, list@),
{
    let ghost before = out.deep_view();
    let mut i: usize = 0;
    assert(out.deep_view() =~= before + mutation_names(family@, list@.take(0)));
    while i < list.len()
        invariant
            i <= list@.len(),
            before == old(out).deep_view(),
            out.deep_view() == before + mutation_names(family@, list@.take(i as int)),
        decreases list@.len() - i,
    {
        add_name(out, family, list[i].id.as_str());
        i = i + 1;
        assert(mutation_names(family@, list@.take(i as int)) =~= mutation_names(
            family@,
            list@.take(i - 1),
        ).push(Named { family: family@, id: list@[i - 1].id@ }));
        assert(out.deep_view() =~= before + mutation_names(family@, list@.take(i as int)));
    }
    assert(list@.take(i as int) =~= list@);
}

fn add_item_names(out: &mut Vec<CheckName>, family: &str, list: &Vec<ContextItemExpectation>)
    ensures
        final(out).deep_view() == old(out).deep_view() + list@.map_values(
            |e: ContextItemExpectation| Named { family: family@, id: e.id@ },
        ),
{
    let ghost before = out.deep_view();
    let ghost name = |e: ContextItemExpectation| Named { family: family@, id: e.id@ };
    let mut i: usize = 0;
    assert(out.deep_view() =~= before + list@.take(0).map_values(name));
    while i < list.len()
        invariant
            i <= list@.len(),
            before == old(out).deep_view(),
            name == (|e: ContextItemExpectation| Named { family: family@, id: e.id@ }),
            out.deep_view() == before + list@.take(i as int).map_values(name),
        decreases list@.len() - i,
    {
        add_name(out, family, list[i].id.as_str());
        i = i + 1;
        assert(list@.take(i as int).map_values(name) =~= list@.take(i - 1).map_values(name).push(
            name(list@[i - 1]),
        ));
        assert(out.deep_view() =~= before + list@.take(i as int).map_values(name));
    }
    assert(list@.take(i as int) =~= list@);
}

fn add_context_names(out: &mut Vec<CheckName>, family: &str, list: &Vec<ContextExpectations>)
    ensures
        final(out).deep_view() == old(out).deep_view() + context_names(family@, list@),
{
    let ghost before = out.deep_view();
    let mut i: usize = 0;
    assert(list@.take(0) =~= Seq::<ContextExpectations>::empty());
    assert(out.deep_view() =~= before + context_names(family@, list@.take(0)));
    while i < list.len()
        invariant
            i <= list@.len(),
            before == old(out).deep_view(),
            out.deep_view() == before + context_names(family@, list@.take(i as int)),
        decreases list@.len() - i,
    {
        assert(list@.take(i + 1).drop_last() =~= list@.take(i as int));
        assert(list@.take(i + 1).last() == list@[i as int]);
        add_item_names(out, family, &list[i].items);
        i = i + 1;
        assert(out.deep_view() =~= before + context_names(family@, list@.take(i as int)));
    }
    assert(list@.take(i as int) =~= list@);
}

fn add_status_names(out: &mut Vec<CheckName>, list: &Vec<ItemStatusExpectation>)
    ensures
        final(out).deep_view() == old(out).deep_view() + status_names(list@),
{
    let ghost before = out.deep_view();
    let mut i: usize = 0;
    assert(out.deep_view() =~= before + status_names(list@.take(0)));
    while i < list.len()
        invariant
            i <= list@.len(),
            before == old(out).deep_view(),
            out.deep_view() == before + status_names(list@.take(i as int)),
        decreases list@.len() - i,
    {
        add_name(out, "item_status", list[i].id.as_str());
        i = i + 1;
        assert(status_names(list@.take(i as int)) =~= status_names(list@.take(i - 1)).push(
            Named { family: "item_status"@, id: list@[i - 1].id@ },
        ));
        assert(out.deep_view() =~= before + status_names(list@.take(i as int)));
    }
    assert(list@.take(i as int) =~= list@);
}

fn names_of(gold: &ExtractorGold) -> (r: Vec<CheckName>)
    ensures
        r.deep_view() == check_names(*gold),
{
    let mut out: Vec<CheckName> = Vec::new();
    assert(out.deep_view() =~= Seq::<Named>::empty());
    add_mutation_names(&mut out, "required", &gold.required_mutations);
    add_mutation_names(&mut out, "forbidden", &gold.forbidden_mutations);
    add_context_names(&mut out, "required_context", &gold.required_context);
    add_context_names(&mut out, "forbidden_context", &gold.forbidden_context);
    add_status_names(&mut out, &gold.required_item_status);
    assert(out.deep_view() =~= check_names(*gold));
    out
}

proof fn a_name_fault_stays(fixture: Seq<char>, names: Seq<Named>, n: int)
    requires
        0 <= n <= names.len(),
        name_fault(fixture, names.take(n)) is Some,
    ensures
        name_fault(fixture, names) == name_fault(fixture, names.take(n)),
    decreases names.len() - n,
{
    if n == names.len() {
        assert(names.take(n) =~= names);
    } else {
        assert(names.take(n + 1).drop_last() =~= names.take(n));
        a_name_fault_stays(fixture, names, n + 1);
    }
}

fn check_name_list(fixture: &str, names: &Vec<CheckName>) -> (r: Option<String>)
    ensures
        r.deep_view() == name_fault(fixture@, names.deep_view()),
{
    let ghost all = names.deep_view();
    let mut seen: Vec<String> = Vec::new();
    let mut i: usize = 0;
    assert(all.take(0) =~= Seq::<Named>::empty());
    assert(texts(seen@) =~= labels(all.take(0)));
    while i < names.len()
        invariant
            i <= names@.len(),
            all == names.deep_view(),
            texts(seen@) == labels(all.take(i as int)),
            name_fault(fixture@, all.take(i as int)) is None,
        decreases names@.len() - i,
    {
        assert(all.take(i + 1).drop_last() =~= all.take(i as int));
        let ghost last = names@[i as int].deep_view();
        assert(all.take(i + 1).last() == last);
        if names[i].id.as_str().is_empty() {
            let mut f: String = "fixture '".to_owned();
            f.append(fixture);
            f.append("': ");
            f.append(names[i].family.as_str());
            f.append(" entry has an empty id");
            proof {
                a_name_fault_stays(fixture@, all, i + 1);
            }
            return Some(f);
        }
        let mut label: String = names[i].family.clone();
        label.append(":");
        label.append(names[i].id.as_str());
        if is_listed(&seen, label.as_str()) {
            let mut f: String = "fixture '".to_owned();
            f.append(fixture);
            f.append("': duplicate check id ");
            f.append(label.as_str());
            proof {
                a_name_fault_stays(fixture@, all, i + 1);
            }
            return Some(f);
        }
        let ghost before = texts(seen@);
        seen.push(label);
        assert(texts(seen@) =~= before.push(label@));
        i = i + 1;
        assert(labels(all.take(i as int)) =~= labels(all.take(i - 1)).push(last.label()));
    }
    assert(all.take(i as int) =~= all);
    None
}

proof fn an_empty_fault_stays(
    fixture: Seq<char>,
    list: Seq<StructuralMutationExpectation>,
    n: int,
)
    requires
        0 <= n <= list.len(),
        empty_fault(fixture, list.take(n)) is Some,
    ensures
        empty_fault(fixture, list) == empty_fault(fixture, list.take(n)),
    decreases list.len() - n,
{
    if n == list.len() {
        assert(list.take(n) =~= list);
    } else {
        assert(list.take(n + 1).drop_last() =~= list.take(n));
        an_empty_fault_stays(fixture, list, n + 1);
    }
}

fn check_constrained(fixture: &str, list: &Vec<StructuralMutationExpectation>) -> (r: Option<
    String,
>)
    ensures
        r.deep_view() == empty_fault(fixture@, list@),
{
    let mut i: usize = 0;
    assert(list@.take(0) =~= Seq::<StructuralMutationExpectation>::empty());
    while i < list.len()
        invariant
            i <= list@.len(),
            empty_fault(fixture@, list@.take(i as int)) is None,
        decreases list@.len() - i,
    {
        assert(list@.take(i + 1).drop_last() =~= list@.take(i as int));
        assert(list@.take(i + 1).last() == list@[i as int]);
        if !constrained(&list[i]) {
            let mut f: String = "fixture '".to_owned();
            f.append(fixture);
            f.append("': extractor_gold check '");
            f.append(list[i].id.as_str());
            f.append("' has no constraint and would match every mutation");
            proof {
                an_empty_fault_stays(fixture@, list@, i + 1);
            }
            return Some(f);
        }
        i = i + 1;
    }
    assert(list@.take(i as int) =~= list@);
    None
}

/// Checks that a fixture is well-formed: no check id is empty or there twice, and every check on a
/// change asks something.
pub fn validate(fixture: &ContextQualityFixture) -> (r: Result<(), AppError>)
    ensures
        match fixture_fault(*fixture) {
            Some(f) => r matches Err(e) && e.deep_view() == Fault::Other(f),
            None => r is Ok,
        },
{
    let gold = &fixture.extractor_gold;
    let names = names_of(gold);
    match check_name_list(fixture.name.as_str(), &names) {
        Some(f) => {
            return Err(AppError::Other(f));
        },
        None => {},
    }
    match check_constrained(fixture.name.as_str(), &gold.required_mutations) {
        Some(f) => {
            return Err(AppError::Other(f));
        },
        None => {},
    }
    match check_constrained(fixture.name.as_str(), &gold.forbidden_mutations) {
        Some(f) => Err(AppError::Other(f)),
        None => Ok(()),
    }
}

/// A fixture of the corpus, where it could be read and is well-formed. `read` is the fixture, or
/// why it could not be read.
pub fn load_fixture(read: Result<ContextQualityFixture, String>) -> (r: Result<
    ContextQualityFixture,
    AppError,
>)
    ensures
        match read {
            Err(why) => r matches Err(e) && e.deep_view() == Fault::Other(
                "fixture JSON parse failed: "@ + why@,
            ),
            Ok(f) => match fixture_fault(f) {
                Some(fault) => r matches Err(e) && e.deep_view() == Fault::Other(fault),
                None => r == Ok::<ContextQualityFixture, AppError>(f),
            },
        },
{
    match read {
        Err(why) => {
            let mut message: String = "fixture JSON parse failed: ".to_owned();
            message.append(why.as_str());
            Err(AppError::Other(message))
        },
        Ok(fixture) => match validate(&fixture) {
            Ok(()) => Ok(fixture),
            Err(e) => Err(e),
        },
    }
}

// ---------------------------------------------------------------------------
// Laws
// ---------------------------------------------------------------------------

/// In a well-formed fixture no two checks have the same id, and none has an empty one.
pub proof fn well_formed_checks_are_distinct(fixture: Seq<char>, names: Seq<Named>, i: int, j: int)
    requires
        name_fault(fixture, names) is None,
        0 <= i < j < names.len(),
    ensures
        names[i].label() != names[j].label(),
        names[i].id.len() > 0,
        names[j].id.len() > 0,
    decreases names.len(),
{
    let front = names.drop_last();
    if j < names.len() - 1 {
        well_formed_checks_are_distinct(fixture, front, i, j);
    } else {
        assert(labels(front)[i] == names[i].label());
        well_formed_names_are_not_empty(fixture, names, i);
    }
}

proof fn well_formed_names_are_not_empty(fixture: Seq<char>, names: Seq<Named>, i: int)
    requires
        name_fault(fixture, names) is None,
        0 <= i < names.len(),
    ensures
        names[i].id.len() > 0,
    decreases names.len(),
{
    if i < names.len() - 1 {
        well_formed_names_are_not_empty(fixture, names.drop_last(), i);
    }
}

} // verus!
