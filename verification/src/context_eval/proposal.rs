//! Proposed changes, as they are matched and described.
use crate::context_eval::corpus::{
    asks_something, ContextItemExpectation, StructuralMutationExpectation,
};
use crate::store::SessionMessage;
use crate::sync::ContextMutation;
use crate::text::{
    contains, debug_form, debug_list, debug_text, has_text, is_listed, join, joined, list_form,
    same, signed_decimal, signed_decimal_of, texts,
};
use vstd::prelude::*;

verus! {

/// A proposed change, flattened.
pub struct MutationView<'a> {
    pub op: &'static str,
    pub workstream_id: Option<&'a String>,
    pub item_kind: Option<&'a String>,
    pub item_id: Option<&'a String>,
    pub title: Option<&'a String>,
    pub content: Option<&'a String>,
    pub authority: Option<&'a String>,
    pub source_refs: Option<&'a Vec<String>>,
}

/// A proposed change, flattened, as a mathematical value.
pub struct Proposal {
    pub op: Seq<char>,
    pub workstream_id: Option<Seq<char>>,
    pub item_kind: Option<Seq<char>>,
    pub item_id: Option<Seq<char>>,
    pub title: Seq<char>,
    pub content: Seq<char>,
    pub authority: Option<Seq<char>>,
    pub source_refs: Seq<Seq<char>>,
}

/// A text that may be missing.
pub open spec fn where_there(s: Option<&String>) -> Option<Seq<char>> {
    match s {
        Some(t) => Some(t@),
        None => None,
    }
}

/// A text, empty where it is missing.
pub open spec fn or_empty(s: Option<&String>) -> Seq<char> {
    match s {
        Some(t) => t@,
        None => Seq::empty(),
    }
}

impl<'a> DeepView for MutationView<'a> {
    type V = Proposal;

    open spec fn deep_view(&self) -> Proposal {
        Proposal {
            op: self.op@,
            workstream_id: where_there(self.workstream_id),
            item_kind: where_there(self.item_kind),
            item_id: where_there(self.item_id),
            title: or_empty(self.title),
            content: or_empty(self.content),
            authority: where_there(self.authority),
            source_refs: match self.source_refs {
                Some(v) => texts(v@),
                None => Seq::empty(),
            },
        }
    }
}

/// A proposed change, flattened.
pub open spec fn proposal(m: ContextMutation) -> Proposal {
    match m {
        ContextMutation::Add {
            workstream_id,
            item_kind,
            title,
            content,
            source_refs,
            authority,
        } => Proposal {
            op: "add"@,
            workstream_id: Some(workstream_id@),
            item_kind: Some(item_kind@),
            item_id: None,
            title: title@,
            content: content@,
            authority: Some(authority@),
            source_refs: texts(source_refs@),
        },
        ContextMutation::Update { item_id, title, content, source_refs, authority } => Proposal {
            op: "update"@,
            workstream_id: None,
            item_kind: None,
            item_id: Some(item_id@),
            title: title@,
            content: content@,
            authority: Some(authority@),
            source_refs: texts(source_refs@),
        },
        ContextMutation::Supersede { item_id, title, content, source_refs, authority } => Proposal {
            op: "supersede"@,
            workstream_id: None,
            item_kind: None,
            item_id: Some(item_id@),
            title: title@,
            content: content@,
            authority: Some(authority@),
            source_refs: texts(source_refs@),
        },
        ContextMutation::Resolve { item_id, source_refs } => Proposal {
            op: "resolve"@,
            workstream_id: None,
            item_kind: None,
            item_id: Some(item_id@),
            title: Seq::empty(),
            content: Seq::empty(),
            authority: None,
            source_refs: texts(source_refs@),
        },
        ContextMutation::CreateWorkstream { title, reason } => Proposal {
            op: "create_workstream"@,
            workstream_id: None,
            item_kind: None,
            item_id: None,
            title: title@,
            content: reason@,
            authority: None,
            source_refs: Seq::empty(),
        },
        ContextMutation::Conflict { workstream_id, item_id, title, content, source_refs } =>
        Proposal {
            op: "conflict"@,
            workstream_id: Some(workstream_id@),
            item_kind: None,
            item_id: Some(item_id@),
            title: title@,
            content: content@,
            authority: None,
            source_refs: texts(source_refs@),
        },
    }
}

/// Proposed changes, flattened.
pub open spec fn proposals(v: Seq<ContextMutation>) -> Seq<Proposal> {
    v.map_values(|m: ContextMutation| proposal(m))
}

/// A proposed change, flattened.
pub fn mutation_view(m: &ContextMutation) -> (r: MutationView<'_>)
    ensures
        r.deep_view() == proposal(*m),
{
    match m {
        ContextMutation::Add {
            workstream_id,
            item_kind,
            title,
            content,
            source_refs,
            authority,
        } => MutationView {
            op: "add",
            workstream_id: Some(workstream_id),
            item_kind: Some(item_kind),
            item_id: None,
            title: Some(title),
            content: Some(content),
            authority: Some(authority),
            source_refs: Some(source_refs),
        },
        ContextMutation::Update { item_id, title, content, source_refs, authority } =>
        MutationView {
            op: "update",
            workstream_id: None,
            item_kind: None,
            item_id: Some(item_id),
            title: Some(title),
            content: Some(content),
            authority: Some(authority),
            source_refs: Some(source_refs),
        },
        ContextMutation::Supersede { item_id, title, content, source_refs, authority } =>
        MutationView {
            op: "supersede",
            workstream_id: None,
            item_kind: None,
            item_id: Some(item_id),
            title: Some(title),
            content: Some(content),
            authority: Some(authority),
            source_refs: Some(source_refs),
        },
        ContextMutation::Resolve { item_id, source_refs } => MutationView {
            op: "resolve",
            workstream_id: None,
            item_kind: None,
            item_id: Some(item_id),
            title: None,
            content: None,
            authority: None,
            source_refs: Some(source_refs),
        },
        ContextMutation::CreateWorkstream { title, reason } => MutationView {
            op: "create_workstream",
            workstream_id: None,
            item_kind: None,
            item_id: None,
            title: Some(title),
            content: Some(reason),
            authority: None,
            source_refs: None,
        },
        ContextMutation::Conflict { workstream_id, item_id, title, content, source_refs } =>
        MutationView {
            op: "conflict",
            workstream_id: Some(workstream_id),
            item_kind: None,
            item_id: Some(item_id),
            title: Some(title),
            content: Some(content),
            authority: None,
            source_refs: Some(source_refs),
        },
    }
}

// ---------------------------------------------------------------------------
// Matching
// ---------------------------------------------------------------------------

/// The id of the message with a number; the last one counts.
pub open spec fn message_numbered(messages: Seq<SessionMessage>, number: i64) -> Option<Seq<char>>
    decreases messages.len(),
{
    if messages.len() == 0 {
        None
    } else if messages.last().sequence == number {
        Some(messages.last().id@)
    } else {
        message_numbered(messages.drop_last(), number)
    }
}

/// Whether all of some texts are in a text.
pub open spec fn has_all(s: Seq<char>, parts: Seq<String>) -> bool {
    forall|i: int| 0 <= i < parts.len() ==> has_text(s, (#[trigger] parts[i])@)
}

/// Whether a text is as expected, where anything is expected.
pub open spec fn agrees(actual: Option<Seq<char>>, expected: Option<String>) -> bool {
    expected matches Some(e) ==> actual == Some(e@)
}

/// Whether a change cites a message.
pub open spec fn cites(p: Proposal, messages: Seq<SessionMessage>, number: i64) -> bool {
    match message_numbered(messages, number) {
        Some(id) => p.source_refs.contains("session-message:"@ + id),
        None => false,
    }
}

/// Whether a change is what is expected.
pub open spec fn meets(
    p: Proposal,
    e: StructuralMutationExpectation,
    messages: Seq<SessionMessage>,
) -> bool {
    &&& e.op@.len() > 0 ==> texts(e.op@).contains(p.op)
    &&& agrees(p.workstream_id, e.workstream_id)
    &&& e.item_kind@.len() > 0 ==> (p.item_kind matches Some(k) && texts(e.item_kind@).contains(k))
    &&& agrees(p.item_id, e.item_id)
    &&& has_all(p.title, e.title_contains@)
    &&& has_all(p.content, e.content_contains@)
    &&& agrees(p.authority, e.authority)
    &&& forall|i: int|
        0 <= i < e.source_events@.len() ==> cites(p, messages, #[trigger] e.source_events@[i])
}

fn find_message(messages: &Vec<SessionMessage>, number: i64) -> (r: Option<&String>)
    ensures
        where_there(r) == message_numbered(messages@, number),
{
    let mut i: usize = messages.len();
    assert(messages@.take(i as int) =~= messages@);
    while i > 0
        invariant
            i <= messages@.len(),
            message_numbered(messages@, number) == message_numbered(
                messages@.take(i as int),
                number,
            ),
        decreases i,
    {
        assert(messages@.take(i as int).drop_last() =~= messages@.take(i - 1));
        assert(messages@.take(i as int).last() == messages@[i - 1]);
        i = i - 1;
        if messages[i].sequence == number {
            return Some(&messages[i].id);
        }
    }
    None
}

fn contains_all(s: &str, parts: &Vec<String>) -> (r: bool)
    ensures
        r == has_all(s@, parts@),
{
    let mut i: usize = 0;
    while i < parts.len()
        invariant
            i <= parts@.len(),
            forall|k: int| 0 <= k < i ==> has_text(s@, (#[trigger] parts@[k])@),
        decreases parts@.len() - i,
    {
        if !contains(s, parts[i].as_str()) {
            assert(!has_text(s@, parts@[i as int]@));
            return false;
        }
        i = i + 1;
    }
    true
}

fn does_agree(actual: Option<&String>, expected: &Option<String>) -> (r: bool)
    ensures
        r == agrees(where_there(actual), *expected),
{
    match expected {
        None => true,
        Some(e) => match actual {
            Some(a) => same(a.as_str(), e.as_str()),
            None => false,
        },
    }
}

fn text_or_empty<'a>(s: Option<&'a String>) -> (r: &'a str)
    ensures
        r@ == or_empty(s),
{
    match s {
        Some(t) => t.as_str(),
        None => {
            proof {
                reveal_strlit("");
                assert(""@ =~= Seq::<char>::empty());
            }
            ""
        },
    }
}

/// Whether a change is what is expected.
pub fn mutation_matches(
    v: &MutationView<'_>,
    exp: &StructuralMutationExpectation,
    messages: &Vec<SessionMessage>,
) -> (r: bool)
    ensures
        r == meets(v.deep_view(), *exp, messages@),
{
    let ghost p = v.deep_view();
    if exp.op.len() > 0 && !is_listed(&exp.op, v.op) {
        return false;
    }
    if !does_agree(v.workstream_id, &exp.workstream_id) {
        return false;
    }
    if exp.item_kind.len() > 0 {
        match v.item_kind {
            Some(k) => {
                if !is_listed(&exp.item_kind, k.as_str()) {
                    return false;
                }
            },
            None => {
                return false;
            },
        }
    }
    if !does_agree(v.item_id, &exp.item_id) {
        return false;
    }
    if !contains_all(text_or_empty(v.title), &exp.title_contains) {
        return false;
    }
    if !contains_all(text_or_empty(v.content), &exp.content_contains) {
        return false;
    }
    if !does_agree(v.authority, &exp.authority) {
        return false;
    }
    let mut i: usize = 0;
    while i < exp.source_events.len()
        invariant
            i <= exp.source_events@.len(),
            p == v.deep_view(),
            forall|k: int|
                0 <= k < i ==> cites(p, messages@, #[trigger] exp.source_events@[k]),
        decreases exp.source_events@.len() - i,
    {
        let cited: bool = match find_message(messages, exp.source_events[i]) {
            None => false,
            Some(id) => {
                let mut want: String = "session-message:".to_owned();
                want.append(id.as_str());
                match v.source_refs {
                    Some(refs) => is_listed(refs, want.as_str()),
                    None => false,
                }
            },
        };
        if !cited {
            assert(!cites(p, messages@, exp.source_events@[i as int]));
            return false;
        }
        i = i + 1;
    }
    true
}

/// Whether an item at the core is what is expected.
pub open spec fn item_meets(kind: Seq<char>, title: Seq<char>, e: ContextItemExpectation) -> bool {
    agrees(Some(kind), e.kind) && has_all(title, e.title_contains@)
}

/// Whether an item at the core is what is expected.
pub fn context_matches(kind: &str, title: &str, exp: &ContextItemExpectation) -> (r: bool)
    ensures
        r == item_meets(kind@, title@, *exp),
{
    match &exp.kind {
        Some(k) => {
            if !same(k.as_str(), kind) {
                return false;
            }
        },
        None => {},
    }
    contains_all(title, &exp.title_contains)
}

// ---------------------------------------------------------------------------
// Describing
// ---------------------------------------------------------------------------

/// `label` and a value, where there is one.
pub open spec fn told(label: Seq<char>, value: Option<Seq<char>>) -> Seq<Seq<char>> {
    match value {
        Some(v) => seq![label + v],
        None => Seq::empty(),
    }
}

/// `label` and a list, where it is not empty.
pub open spec fn told_list(label: Seq<char>, list: Seq<String>) -> Seq<Seq<char>> {
    if list.len() > 0 {
        seq![label + list_form(texts(list))]
    } else {
        Seq::empty()
    }
}

/// The numbers of messages, as they are written.
pub open spec fn numbers(v: Seq<i64>) -> Seq<Seq<char>> {
    v.map_values(|n: i64| "#"@ + signed_decimal(n as int))
}

/// What is asked of a change, in words.
pub open spec fn expectation_text(e: StructuralMutationExpectation) -> Seq<char> {
    let parts = told_list("op∈"@, e.op@) + told("ws="@, e.workstream_id.deep_view())
        + told_list("kind∈"@, e.item_kind@) + told("item="@, e.item_id.deep_view())
        + told_list("title⊇"@, e.title_contains@) + told_list(
        "content⊇"@,
        e.content_contains@,
    ) + told("authority="@, e.authority.deep_view()) + told(
        "cites="@,
        if e.source_events@.len() > 0 {
            Some(joined(numbers(e.source_events@), ","@))
        } else {
            None
        },
    );
    if parts.len() == 0 {
        "(unconstrained)"@
    } else {
        joined(parts, " "@)
    }
}

/// A change, in words.
pub open spec fn proposal_text(p: Proposal) -> Seq<char> {
    "("@ + joined(
        seq!["op="@ + p.op] + told("ws="@, p.workstream_id) + told("kind="@, p.item_kind) + told(
            "item="@,
            p.item_id,
        ) + told(
            "title="@,
            if p.title.len() > 0 {
                Some(debug_form(p.title))
            } else {
                None
            },
        ) + told("authority="@, p.authority),
        " "@,
    ) + ")"@
}

/// What is asked of an item at the core, in words.
pub open spec fn item_text(e: ContextItemExpectation) -> Seq<char> {
    let parts = told("kind="@, e.kind.deep_view()) + told_list("title⊇"@, e.title_contains@);
    if parts.len() == 0 {
        "(any core item)"@
    } else {
        joined(parts, " "@)
    }
}

fn tell(parts: &mut Vec<String>, label: &str, value: Option<&String>)
    ensures
        texts(final(parts)@) == texts(old(parts)@) + told(label@, where_there(value)),
{
    let ghost before = texts(parts@);
    match value {
        Some(v) => {
            let mut s: String = label.to_owned();
            s.append(v.as_str());
            parts.push(s);
            assert(texts(parts@) =~= before + seq![label@ + v@]);
        },
        None => {
            assert(texts(parts@) =~= before + Seq::<Seq<char>>::empty());
        },
    }
}

fn tell_list(parts: &mut Vec<String>, label: &str, list: &Vec<String>)
    ensures
        texts(final(parts)@) == texts(old(parts)@) + told_list(label@, list@),
{
    let ghost before = texts(parts@);
    if list.len() > 0 {
        let mut s: String = label.to_owned();
        s.append(debug_list(list).as_str());
        parts.push(s);
        assert(texts(parts@) =~= before + seq![label@ + list_form(texts(list@))]);
    } else {
        assert(texts(parts@) =~= before + Seq::<Seq<char>>::empty());
    }
}

fn list_numbers(v: &Vec<i64>) -> (r: Vec<String>)
    ensures
        texts(r@) == numbers(v@),
{
    let mut out: Vec<String> = Vec::new();
    let mut i: usize = 0;
    assert(texts(out@) =~= numbers(v@.take(0)));
    while i < v.len()
        invariant
            i <= v@.len(),
            texts(out@) == numbers(v@.take(i as int)),
        decreases v@.len() - i,
    {
        let ghost before = texts(out@);
        let mut s: String = "#".to_owned();
        s.append(signed_decimal_of(v[i]).as_str());
        out.push(s);
        assert(texts(out@) =~= before.push(s@));
        i = i + 1;
        assert(numbers(v@.take(i as int)) =~= numbers(v@.take(i - 1)).push(
            "#"@ + signed_decimal(v@[i - 1] as int),
        ));
    }
    assert(v@.take(i as int) =~= v@);
    out
}

/// What is asked of a change, in words.
pub fn describe_expectation(exp: &StructuralMutationExpectation) -> (r: String)
    ensures
        r@ == expectation_text(*exp),
{
    let mut parts: Vec<String> = Vec::new();
    assert(texts(parts@) =~= Seq::<Seq<char>>::empty());
    tell_list(&mut parts, "op∈", &exp.op);
    tell(&mut parts, "ws=", exp.workstream_id.as_ref());
    tell_list(&mut parts, "kind∈", &exp.item_kind);
    tell(&mut parts, "item=", exp.item_id.as_ref());
    tell_list(&mut parts, "title⊇", &exp.title_contains);
    tell_list(&mut parts, "content⊇", &exp.content_contains);
    tell(&mut parts, "authority=", exp.authority.as_ref());
    if exp.source_events.len() > 0 {
        let refs = join(&list_numbers(&exp.source_events), ",");
        tell(&mut parts, "cites=", Some(&refs));
    } else {
        tell(&mut parts, "cites=", None);
    }
    let ghost all = told_list("op∈"@, exp.op@) + told("ws="@, exp.workstream_id.deep_view())
        + told_list("kind∈"@, exp.item_kind@) + told("item="@, exp.item_id.deep_view())
        + told_list("title⊇"@, exp.title_contains@) + told_list(
        "content⊇"@,
        exp.content_contains@,
    ) + told("authority="@, exp.authority.deep_view()) + told(
        "cites="@,
        if exp.source_events@.len() > 0 {
            Some(joined(numbers(exp.source_events@), ","@))
        } else {
            None
        },
    );
    assert(texts(parts@) =~= all);
    assert(texts(parts@).len() == parts@.len());
    if parts.len() == 0 {
        "(unconstrained)".to_owned()
    } else {
        join(&parts, " ")
    }
}

/// A change, in words.
pub fn describe_mutation(v: &MutationView<'_>) -> (r: String)
    ensures
        r@ == proposal_text(v.deep_view()),
{
    let ghost p = v.deep_view();
    let mut op: String = "op=".to_owned();
    op.append(v.op);
    let mut parts: Vec<String> = Vec::new();
    parts.push(op);
    assert(texts(parts@) =~= seq!["op="@ + p.op]);
    tell(&mut parts, "ws=", v.workstream_id);
    tell(&mut parts, "kind=", v.item_kind);
    tell(&mut parts, "item=", v.item_id);
    let title: &str = text_or_empty(v.title);
    if title.is_empty() {
        tell(&mut parts, "title=", None);
    } else {
        let quoted = debug_text(title);
        tell(&mut parts, "title=", Some(&quoted));
    }
    tell(&mut parts, "authority=", v.authority);
    assert(texts(parts@) =~= seq!["op="@ + p.op] + told("ws="@, p.workstream_id) + told(
        "kind="@,
        p.item_kind,
    ) + told("item="@, p.item_id) + told(
        "title="@,
        if p.title.len() > 0 {
            Some(debug_form(p.title))
        } else {
            None
        },
    ) + told("authority="@, p.authority));
    let mut r: String = "(".to_owned();
    r.append(join(&parts, " ").as_str());
    r.append(")");
    r
}

/// What is asked of an item at the core, in words.
pub fn describe_context_expectation(exp: &ContextItemExpectation) -> (r: String)
    ensures
        r@ == item_text(*exp),
{
    let mut parts: Vec<String> = Vec::new();
    assert(texts(parts@) =~= Seq::<Seq<char>>::empty());
    tell(&mut parts, "kind=", exp.kind.as_ref());
    tell_list(&mut parts, "title⊇", &exp.title_contains);
    assert(texts(parts@) =~= told("kind="@, exp.kind.deep_view()) + told_list(
        "title⊇"@,
        exp.title_contains@,
    ));
    assert(texts(parts@).len() == parts@.len());
    if parts.len() == 0 {
        "(any core item)".to_owned()
    } else {
        join(&parts, " ")
    }
}

// ---------------------------------------------------------------------------
// Laws
// ---------------------------------------------------------------------------

/// An expectation that asks nothing is met by every change.
pub proof fn asking_nothing_is_always_met(
    p: Proposal,
    e: StructuralMutationExpectation,
    messages: Seq<SessionMessage>,
)
    requires
        !asks_something(e),
    ensures
        meets(p, e, messages),
{
}

} // verus!
