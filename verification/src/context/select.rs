//! What fits into a request.
//!
//! A request has a limit, of which some room is kept for the answer. One session sends as many
//! whole messages as fit, a workstream as many whole sessions.
use crate::bytes::{byte_len, byte_length};
use crate::context::parts::{ReadOnlySession, Reader, Target, TargetSession};
use crate::error::{AppError, ContextFault, ContextUpdateError, Fault};
use crate::domain::copy_texts;
use crate::store::{ContextRow, Fields, SessionContextFields, SessionContextRecord, SessionMessage};
use crate::sync::{Input, InputLimits, Prompt, PromptInput, PromptSession, Shown};
use crate::text::texts;
use vstd::prelude::*;

verus! {

/// Whether a prompt is one that is made of an input.
pub open spec fn renders<F: Fn(&PromptInput) -> Prompt>(
    render: F,
    input: Input,
    prompt: Prompt,
) -> bool {
    exists|i: PromptInput|
        i.deep_view() == input && #[trigger] call_ensures(render, (&i,), prompt)
}

/// What is left of a limit when some room is kept free.
pub open spec fn room(limit: usize, reserve: int) -> int {
    if reserve >= limit {
        0
    } else {
        limit - reserve
    }
}

/// The room for a request about so many sessions of a workstream.
pub open spec fn workstream_room(limits: InputLimits, sessions: nat) -> int {
    room(limits.input_limit, limits.workstream_reserve + limits.session_reserve * sessions)
}

/// The summary that still describes the present conversation.
pub open spec fn current(context: Option<ContextRow>, generation: i64) -> Option<ContextRow> {
    match context {
        Some(c) => if c.ingest_generation == generation {
            Some(c)
        } else {
            None
        },
        None => None,
    }
}

/// What a summary says.
pub open spec fn fields_where(context: Option<ContextRow>) -> Option<Fields> {
    match context {
        Some(c) => Some(c.fields),
        None => None,
    }
}

/// The revision of a summary.
pub open spec fn revision_where(context: Option<ContextRow>) -> Option<i64> {
    match context {
        Some(c) => Some(c.revision),
        None => None,
    }
}

fn copy_messages(v: &Vec<SessionMessage>, n: usize) -> (r: Vec<SessionMessage>)
    requires
        n <= v@.len(),
    ensures
        r@ == v@.take(n as int),
{
    let mut out: Vec<SessionMessage> = Vec::new();
    let mut i: usize = 0;
    while i < n
        invariant
            i <= n,
            n <= v@.len(),
            out@ == v@.take(i as int),
        decreases n - i,
    {
        out.push(v[i].copy());
        i = i + 1;
        assert(v@.take(i as int) =~= v@.take(i - 1).push(v@[i - 1]));
    }
    out
}

fn copy_fields(c: Option<&SessionContextRecord>) -> (r: Option<SessionContextFields>)
    ensures
        r.deep_view() == (match c {
            Some(c) => Some(c.deep_view().fields),
            None => None,
        }),
{
    match c {
        Some(c) => Some(c.fields.copy()),
        None => None,
    }
}

fn current_record(c: &Option<SessionContextRecord>, generation: i64) -> (r: Option<
    &SessionContextRecord,
>)
    ensures
        match r {
            Some(x) => current(c.deep_view(), generation) == Some(x.deep_view()),
            None => current(c.deep_view(), generation) is None,
        },
{
    match c {
        Some(x) => {
            if x.ingest_generation == generation {
                Some(x)
            } else {
                None
            }
        },
        None => None,
    }
}

fn too_large(message: &str) -> (e: AppError)
    ensures
        e.deep_view() == Fault::Context(ContextFault::InputTooLarge(message@)),
{
    AppError::Context(ContextUpdateError::InputTooLarge(message.to_owned()))
}

// ---------------------------------------------------------------------------
// One session
// ---------------------------------------------------------------------------

/// What is asked about one session, but for the messages.
pub struct SessionRequest {
    pub session_id: String,
    pub title: Option<String>,
    pub existing: Option<SessionContextRecord>,
    pub generation: i64,
}

/// What a prompt about the first messages of a session is made of.
pub open spec fn session_input(
    session: Seq<char>,
    title: Option<Seq<char>>,
    existing: Option<ContextRow>,
    generation: i64,
    messages: Seq<SessionMessage>,
) -> Input {
    let shown = current(existing, generation);
    Input {
        workstream_title: "仅更新该 Session 摘要（"@ + (match title {
            Some(t) => t,
            None => "该会话"@,
        }) + "）"@,
        workstream_description: Seq::empty(),
        item_lines: Seq::empty(),
        sessions: seq![
            Shown {
                session_id: session,
                is_target: true,
                existing: fields_where(shown),
                existing_revision: revision_where(shown),
                messages,
            },
        ],
        messages,
    }
}

impl SessionRequest {
    /// What a prompt about some messages is made of.
    pub open spec fn about(self, messages: Seq<SessionMessage>) -> Input {
        session_input(
            self.session_id@,
            self.title.deep_view(),
            self.existing.deep_view(),
            self.generation,
            messages,
        )
    }

    fn input(&self, all: &Vec<SessionMessage>, n: usize) -> (r: PromptInput)
        requires
            n <= all@.len(),
        ensures
            r.deep_view() == self.about(all@.take(n as int)),
    {
        let mut heading: String = "仅更新该 Session 摘要（".to_owned();
        match &self.title {
            Some(t) => {
                heading.append(t.as_str());
            },
            None => {
                heading.append("该会话");
            },
        }
        heading.append("）");
        let shown = current_record(&self.existing, self.generation);
        let mut sessions: Vec<PromptSession> = Vec::new();
        sessions.push(
            PromptSession {
                session_id: self.session_id.clone(),
                is_target: true,
                existing: copy_fields(shown),
                existing_revision: match shown {
                    Some(c) => Some(c.revision),
                    None => None,
                },
                messages: copy_messages(all, n),
            },
        );
        let r = PromptInput {
            workstream_title: heading,
            workstream_description: String::new(),
            item_lines: Vec::new(),
            sessions,
            messages: copy_messages(all, n),
        };
        assert(texts(r.item_lines@) =~= Seq::<Seq<char>>::empty());
        assert(r.sessions.deep_view() =~= self.about(all@.take(n as int)).sessions);
        assert(r.workstream_description@ =~= Seq::<char>::empty());
        r
    }
}

/// Whether a prompt about the first messages was seen to be too large.
pub open spec fn too_many<F: Fn(&PromptInput) -> Prompt>(
    render: F,
    request: SessionRequest,
    all: Seq<SessionMessage>,
    n: int,
    budget: int,
) -> bool {
    exists|p: Prompt|
        #[trigger] renders(render, request.about(all.take(n)), p) && byte_len(p.text@) > budget
}

/// Whether a prompt about the first messages was seen to fit.
pub open spec fn few_enough<F: Fn(&PromptInput) -> Prompt>(
    render: F,
    request: SessionRequest,
    all: Seq<SessionMessage>,
    n: int,
    budget: int,
) -> bool {
    exists|p: Prompt|
        #[trigger] renders(render, request.about(all.take(n)), p) && byte_len(p.text@) <= budget
}

/// Chooses how many messages are sent: all of them where they fit, else so many that one more
/// would not fit. Where neither all of them nor the first alone fit, none are.
pub fn select_message_prefix<F: Fn(&PromptInput) -> Prompt>(
    render: &F,
    request: &SessionRequest,
    all: &Vec<SessionMessage>,
    limits: &InputLimits,
) -> (r: Result<(usize, Prompt), AppError>)
    requires
        all@.len() > 0,
        forall|i: PromptInput| #[trigger] call_requires(*render, (&i,)),
    ensures
        ({
            let budget = room(limits.input_limit, limits.session_reserve as int);
            let len = all@.len() as int;
            match r {
                Ok((n, prompt)) => {
                    &&& 1 <= n <= len
                    &&& renders(*render, request.about(all@.take(n as int)), prompt)
                    &&& byte_len(prompt.text@) <= budget
                    &&& n < len ==> too_many(*render, *request, all@, n + 1, budget)
                    &&& n < len ==> too_many(*render, *request, all@, len, budget)
                    &&& n < len ==> few_enough(*render, *request, all@, 1, budget)
                },
                Err(e) => {
                    &&& e.deep_view() == Fault::Context(
                        ContextFault::InputTooLarge("即使最小的请求也超出输入预算"@),
                    )
                    &&& too_many(*render, *request, all@, len, budget)
                    &&& too_many(*render, *request, all@, 1, budget)
                },
            }
        }),
{
    let budget: usize = limits.input_limit.saturating_sub(limits.session_reserve);
    let len: usize = all.len();
    let full_input = request.input(all, len);
    let full = render(&full_input);
    assert(renders(*render, request.about(all@.take(len as int)), full));
    if byte_length(full.text.as_str()) <= budget {
        return Ok((len, full));
    }
    assert(too_many(*render, *request, all@, len as int, budget as int));
    let one_input = request.input(all, 1);
    let one = render(&one_input);
    assert(renders(*render, request.about(all@.take(1)), one));
    if byte_length(one.text.as_str()) > budget {
        return Err(too_large("即使最小的请求也超出输入预算"));
    }
    assert(few_enough(*render, *request, all@, 1, budget as int));
    let mut best: Prompt = one;
    let mut lo: usize = 1;
    let mut hi: usize = len;
    while lo < hi
        invariant
            1 <= lo <= hi <= len,
            len == all@.len(),
            budget == room(limits.input_limit, limits.session_reserve as int),
            forall|i: PromptInput| #[trigger] call_requires(*render, (&i,)),
            renders(*render, request.about(all@.take(lo as int)), best),
            byte_len(best.text@) <= budget,
            hi < len ==> too_many(*render, *request, all@, hi + 1, budget as int),
        decreases hi - lo,
    {
        let mid: usize = lo + (hi - lo + 1) / 2;
        let input = request.input(all, mid);
        let p = render(&input);
        assert(renders(*render, request.about(all@.take(mid as int)), p));
        if byte_length(p.text.as_str()) <= budget {
            lo = mid;
            best = p;
        } else {
            assert(too_many(*render, *request, all@, mid as int, budget as int));
            hi = mid - 1;
        }
    }
    Ok((lo, best))
}

// ---------------------------------------------------------------------------
// A workstream
// ---------------------------------------------------------------------------

/// The messages of all targets, in order.
pub open spec fn target_messages(targets: Seq<Target>) -> Seq<SessionMessage>
    decreases targets.len(),
{
    if targets.len() == 0 {
        Seq::empty()
    } else {
        target_messages(targets.drop_last()) + targets.last().messages
    }
}

/// A target as a prompt shows it.
pub open spec fn shown_target(t: Target) -> Shown {
    let shown = current(t.existing, t.generation);
    Shown {
        session_id: t.session.id@,
        is_target: true,
        existing: fields_where(shown),
        existing_revision: revision_where(shown),
        messages: t.messages,
    }
}

/// A session that only shows its summary, as a prompt shows it.
pub open spec fn shown_reader(r: Reader) -> Shown {
    Shown {
        session_id: r.session_id,
        is_target: false,
        existing: if r.invalidate_context {
            Some(Fields::blank())
        } else {
            fields_where(r.context)
        },
        existing_revision: revision_where(r.context),
        messages: Seq::empty(),
    }
}

/// What a prompt about a workstream is made of.
pub open spec fn workstream_input(
    title: Seq<char>,
    description: Seq<char>,
    item_lines: Seq<Seq<char>>,
    targets: Seq<Target>,
    readers: Seq<Reader>,
) -> Input {
    Input {
        workstream_title: title,
        workstream_description: description,
        item_lines,
        sessions: targets.map_values(|t: Target| shown_target(t)) + readers.map_values(
            |r: Reader| shown_reader(r),
        ),
        messages: target_messages(targets),
    }
}

/// What is asked about a workstream, but for the sessions.
pub struct WorkstreamRequest {
    pub title: String,
    pub description: String,
    pub item_lines: Vec<String>,
}

impl WorkstreamRequest {
    /// What a prompt about some sessions is made of.
    pub open spec fn about(self, targets: Seq<Target>, readers: Seq<Reader>) -> Input {
        workstream_input(
            self.title@,
            self.description@,
            texts(self.item_lines@),
            targets,
            readers,
        )
    }

    fn input(&self, targets: &Vec<TargetSession>, n: usize, readers: &Vec<ReadOnlySession>) -> (r:
        PromptInput)
        requires
            n <= targets@.len(),
        ensures
            r.deep_view() == self.about(targets.deep_view().take(n as int), readers.deep_view()),
    {
        let ghost all = targets.deep_view();
        let ghost others = readers.deep_view();
        let ghost show_t = |t: Target| shown_target(t);
        let ghost show_r = |r: Reader| shown_reader(r);
        let mut sessions: Vec<PromptSession> = Vec::new();
        let mut messages: Vec<SessionMessage> = Vec::new();
        let mut i: usize = 0;
        assert(all.take(0) =~= Seq::<Target>::empty());
        assert(sessions.deep_view() =~= all.take(0).map_values(show_t));
        while i < n
            invariant
                i <= n,
                n <= targets@.len(),
                all == targets.deep_view(),
                show_t == (|t: Target| shown_target(t)),
                sessions.deep_view() == all.take(i as int).map_values(show_t),
                messages@ == target_messages(all.take(i as int)),
            decreases n - i,
        {
            assert(all.take(i + 1).drop_last() =~= all.take(i as int));
            let ghost t = targets@[i as int].deep_view();
            assert(all.take(i + 1).last() == t);
            let shown = current_record(&targets[i].existing, targets[i].generation);
            let count: usize = targets[i].messages.len();
            assert(targets@[i as int].messages@.take(count as int)
                =~= targets@[i as int].messages@);
            let s = PromptSession {
                session_id: targets[i].session.id.clone(),
                is_target: true,
                existing: copy_fields(shown),
                existing_revision: match shown {
                    Some(c) => Some(c.revision),
                    None => None,
                },
                messages: copy_messages(&targets[i].messages, count),
            };
            assert(s.deep_view() == shown_target(t));
            let ghost before = sessions.deep_view();
            sessions.push(s);
            assert(sessions.deep_view() =~= before.push(shown_target(t)));
            assert(all.take(i + 1).map_values(show_t) =~= before.push(shown_target(t)));
            let mut more = copy_messages(&targets[i].messages, count);
            messages.append(&mut more);
            i = i + 1;
        }
        let ghost front = all.take(n as int).map_values(show_t);
        let mut j: usize = 0;
        assert(sessions.deep_view() =~= front + others.take(0).map_values(show_r));
        while j < readers.len()
            invariant
                j <= readers@.len(),
                others == readers.deep_view(),
                show_r == (|r: Reader| shown_reader(r)),
                sessions.deep_view() == front + others.take(j as int).map_values(show_r),
            decreases readers@.len() - j,
        {
            let ghost r = readers@[j as int].deep_view();
            assert(others[j as int] == r);
            let existing: Option<SessionContextFields> = if readers[j].invalidate_context {
                Some(SessionContextFields::default())
            } else {
                match &readers[j].context {
                    Some(c) => Some(c.fields.copy()),
                    None => None,
                }
            };
            let s = PromptSession {
                session_id: readers[j].session_id.clone(),
                is_target: false,
                existing,
                existing_revision: match &readers[j].context {
                    Some(c) => Some(c.revision),
                    None => None,
                },
                messages: Vec::new(),
            };
            assert(s.deep_view().messages =~= Seq::<SessionMessage>::empty());
            assert(s.deep_view() == shown_reader(r));
            let ghost before = sessions.deep_view();
            sessions.push(s);
            assert(sessions.deep_view() =~= before.push(shown_reader(r)));
            assert(others.take(j + 1).map_values(show_r) =~= others.take(j as int).map_values(
                show_r,
            ).push(shown_reader(r)));
            j = j + 1;
            assert(sessions.deep_view() =~= front + others.take(j as int).map_values(show_r));
        }
        assert(others.take(j as int) =~= others);
        PromptInput {
            workstream_title: self.title.clone(),
            workstream_description: self.description.clone(),
            item_lines: copy_texts(&self.item_lines),
            sessions,
            messages,
        }
    }
}

/// Whether a prompt about the first targets was seen to be too large.
pub open spec fn too_much<F: Fn(&PromptInput) -> Prompt>(
    render: F,
    request: WorkstreamRequest,
    targets: Seq<Target>,
    readers: Seq<Reader>,
    n: int,
    limits: InputLimits,
) -> bool {
    exists|p: Prompt|
        #[trigger] renders(render, request.about(targets.take(n), readers), p) && byte_len(p.text@)
            > workstream_room(limits, n as nat)
}

/// Whether a prompt about the first targets was seen to fit.
pub open spec fn little_enough<F: Fn(&PromptInput) -> Prompt>(
    render: F,
    request: WorkstreamRequest,
    targets: Seq<Target>,
    readers: Seq<Reader>,
    n: int,
    limits: InputLimits,
) -> bool {
    exists|p: Prompt|
        #[trigger] renders(render, request.about(targets.take(n), readers), p) && byte_len(p.text@)
            <= workstream_room(limits, n as nat)
}

proof fn one_more_reserve(s: int, n: nat)
    ensures
        s * (n + 1) == s * n + s,
{
    assert(s * (n + 1) == s * n + s) by (nonlinear_arith);
}

/// Chooses how many targets are sent: whole sessions from the first on, while the request fits
/// and room for the answer about each of them is left. The first that does not fit ends the
/// choice.
pub fn select_workstream_inputs<F: Fn(&PromptInput) -> Prompt>(
    render: &F,
    request: &WorkstreamRequest,
    targets: &Vec<TargetSession>,
    readers: &Vec<ReadOnlySession>,
    limits: &InputLimits,
) -> (r: Result<(usize, Prompt), AppError>)
    requires
        forall|i: PromptInput| #[trigger] call_requires(*render, (&i,)),
    ensures
        ({
            let all = targets.deep_view();
            let others = readers.deep_view();
            match r {
                Ok((n, prompt)) => {
                    &&& n <= all.len()
                    &&& all.len() > 0 ==> n > 0
                    &&& renders(*render, request.about(all.take(n as int), others), prompt)
                    &&& byte_len(prompt.text@) <= workstream_room(*limits, n as nat)
                    &&& forall|k: int|
                        1 <= k <= n ==> #[trigger] little_enough(
                            *render,
                            *request,
                            all,
                            others,
                            k,
                            *limits,
                        )
                    &&& n < all.len() ==> too_much(
                        *render,
                        *request,
                        all,
                        others,
                        n + 1,
                        *limits,
                    )
                },
                Err(e) => if all.len() == 0 {
                    &&& e.deep_view() == Fault::Context(
                        ContextFault::InputTooLarge("Workstream 与只读输入的组合已超出预算"@),
                    )
                    &&& too_much(*render, *request, all, others, 0, *limits)
                } else {
                    &&& e.deep_view() == Fault::Context(
                        ContextFault::InputTooLarge("第一个目标会话已超出输入预算"@),
                    )
                    &&& too_much(*render, *request, all, others, 1, *limits)
                },
            }
        }),
{
    let ghost all = targets.deep_view();
    let ghost others = readers.deep_view();
    let base: usize = limits.input_limit.saturating_sub(limits.workstream_reserve);
    assert(limits.session_reserve * 0 == 0) by (nonlinear_arith);
    assert(base == workstream_room(*limits, 0));
    if targets.len() == 0 {
        let input = request.input(targets, 0, readers);
        let p = render(&input);
        assert(renders(*render, request.about(all.take(0), others), p));
        if byte_length(p.text.as_str()) > base {
            return Err(too_large("Workstream 与只读输入的组合已超出预算"));
        }
        return Ok((0, p));
    }
    let mut best: Option<Prompt> = None;
    let mut n: usize = 0;
    let mut left: usize = base;
    while n < targets.len()
        invariant
            n <= targets@.len(),
            all == targets.deep_view(),
            others == readers.deep_view(),
            forall|i: PromptInput| #[trigger] call_requires(*render, (&i,)),
            left == workstream_room(*limits, n as nat),
            n == 0 ==> best is None,
            n > 0 ==> (best matches Some(p) && renders(
                *render,
                request.about(all.take(n as int), others),
                p,
            ) && byte_len(p.text@) <= workstream_room(*limits, n as nat)),
            forall|k: int|
                1 <= k <= n ==> #[trigger] little_enough(
                    *render,
                    *request,
                    all,
                    others,
                    k,
                    *limits,
                ),
        decreases targets@.len() - n,
    {
        let input = request.input(targets, n + 1, readers);
        let p = render(&input);
        assert(renders(*render, request.about(all.take(n + 1), others), p));
        let next: usize = left.saturating_sub(limits.session_reserve);
        proof {
            one_more_reserve(limits.session_reserve as int, n as nat);
            assert(limits.session_reserve * n >= 0) by (nonlinear_arith);
        }
        assert(next == workstream_room(*limits, (n + 1) as nat));
        if byte_length(p.text.as_str()) <= next {
            assert(little_enough(*render, *request, all, others, n + 1, *limits));
            best = Some(p);
            left = next;
            n = n + 1;
        } else {
            assert(too_much(*render, *request, all, others, n + 1, *limits));
            return match best {
                Some(b) => Ok((n, b)),
                None => Err(too_large("第一个目标会话已超出输入预算")),
            };
        }
    }
    match best {
        Some(b) => Ok((n, b)),
        None => Err(too_large("第一个目标会话已超出输入预算")),
    }
}

// ---------------------------------------------------------------------------
// Laws
// ---------------------------------------------------------------------------

/// Where a prompt about more messages is never smaller than one about fewer, a choice that one
/// more message would break is the largest: no longer prefix fits.
pub proof fn the_chosen_prefix_is_the_largest<F: Fn(&PromptInput) -> Prompt>(
    render: F,
    request: SessionRequest,
    all: Seq<SessionMessage>,
    n: int,
    budget: int,
    m: int,
    longer: Prompt,
)
    requires
        1 <= n < m <= all.len(),
        too_many(render, request, all, n + 1, budget),
        renders(render, request.about(all.take(m)), longer),
        forall|a: int, b: int, pa: Prompt, pb: Prompt|
            1 <= a <= b <= all.len() && #[trigger] renders(
                render,
                request.about(all.take(a)),
                pa,
            ) && #[trigger] renders(render, request.about(all.take(b)), pb) ==> byte_len(pa.text@)
                <= byte_len(pb.text@),
    ensures
        byte_len(longer.text@) > budget,
{
    let p = choose|p: Prompt|
        #[trigger] renders(render, request.about(all.take(n + 1)), p) && byte_len(p.text@) > budget;
    assert(byte_len(p.text@) <= byte_len(longer.text@));
}

// ---------------------------------------------------------------------------
// What was seen
// ---------------------------------------------------------------------------

/// A prompt about the first messages of a session was made, and is larger than what there is room
/// for, or is not.
pub open spec fn was_made<F: Fn(&PromptInput) -> Prompt>(
    render: F,
    i: PromptInput,
    input: Input,
    p: Prompt,
) -> bool {
    i.deep_view() == input && call_ensures(render, (&i,), p)
}

/// What was seen to be too large was made of the first messages and takes more bytes than there is
/// room for; what was seen to fit takes no more.
pub proof fn what_was_seen_of_a_session<F: Fn(&PromptInput) -> Prompt>(
    render: F,
    request: SessionRequest,
    all: Seq<SessionMessage>,
    n: int,
    budget: int,
)
    ensures
        too_many(render, request, all, n, budget) <==> exists|i: PromptInput, p: Prompt|
            #[trigger] was_made(render, i, request.about(all.take(n)), p) && byte_len(p.text@)
                > budget,
        few_enough(render, request, all, n, budget) <==> exists|i: PromptInput, p: Prompt|
            #[trigger] was_made(render, i, request.about(all.take(n)), p) && byte_len(p.text@)
                <= budget,
{
    let input = request.about(all.take(n));
    if too_many(render, request, all, n, budget) {
        let p = choose|p: Prompt| #[trigger] renders(render, input, p) && byte_len(p.text@) > budget;
        let i = choose|i: PromptInput|
            i.deep_view() == input && #[trigger] call_ensures(render, (&i,), p);
        assert(was_made(render, i, input, p));
    }
    if few_enough(render, request, all, n, budget) {
        let p = choose|p: Prompt| #[trigger]
            renders(render, input, p) && byte_len(p.text@) <= budget;
        let i = choose|i: PromptInput|
            i.deep_view() == input && #[trigger] call_ensures(render, (&i,), p);
        assert(was_made(render, i, input, p));
    }
    assert forall|i: PromptInput, p: Prompt| #[trigger]
        was_made(render, i, input, p) implies renders(render, input, p) by {
        assert(call_ensures(render, (&i,), p));
    }
}

/// What was seen to be too large was made of the first targets and takes more bytes than is left
/// when room for the answer about each of them is kept; what was seen to fit takes no more.
pub proof fn what_was_seen_of_a_workstream<F: Fn(&PromptInput) -> Prompt>(
    render: F,
    request: WorkstreamRequest,
    targets: Seq<Target>,
    readers: Seq<Reader>,
    n: nat,
    limits: InputLimits,
)
    ensures
        ({
            let input = request.about(targets.take(n as int), readers);
            let left = limits.input_limit - limits.workstream_reserve - limits.session_reserve * n;
            let room = if left > 0 {
                left
            } else {
                0
            };
            &&& too_much(render, request, targets, readers, n as int, limits) <==> exists|
                i: PromptInput,
                p: Prompt,
            |
                #[trigger] was_made(render, i, input, p) && byte_len(p.text@) > room
            &&& little_enough(render, request, targets, readers, n as int, limits) <==> exists|
                i: PromptInput,
                p: Prompt,
            |
                #[trigger] was_made(render, i, input, p) && byte_len(p.text@) <= room
        }),
{
    let input = request.about(targets.take(n as int), readers);
    let budget = workstream_room(limits, n);
    if too_much(render, request, targets, readers, n as int, limits) {
        let p = choose|p: Prompt| #[trigger] renders(render, input, p) && byte_len(p.text@) > budget;
        let i = choose|i: PromptInput|
            i.deep_view() == input && #[trigger] call_ensures(render, (&i,), p);
        assert(was_made(render, i, input, p));
    }
    if little_enough(render, request, targets, readers, n as int, limits) {
        let p = choose|p: Prompt| #[trigger]
            renders(render, input, p) && byte_len(p.text@) <= budget;
        let i = choose|i: PromptInput|
            i.deep_view() == input && #[trigger] call_ensures(render, (&i,), p);
        assert(was_made(render, i, input, p));
    }
    assert forall|i: PromptInput, p: Prompt| #[trigger]
        was_made(render, i, input, p) implies renders(render, input, p) by {
        assert(call_ensures(render, (&i,), p));
    }
}

/// What is asked about a session names it and shows its present summary and the messages; a
/// session without a title is called just that.
pub proof fn what_is_asked_about_a_session(request: SessionRequest, messages: Seq<SessionMessage>)
    ensures
        ({
            let input = request.about(messages);
            let present = match request.existing {
                Some(c) => c.ingest_generation == request.generation,
                None => false,
            };
            &&& input.sessions.len() == 1
            &&& input.sessions[0].session_id == request.session_id@
            &&& input.sessions[0].is_target
            &&& input.sessions[0].messages == messages
            &&& input.messages == messages
            &&& input.item_lines.len() == 0
            &&& input.workstream_description.len() == 0
            &&& request.title matches Some(t) ==> input.workstream_title
                == "仅更新该 Session 摘要（"@ + t@ + "）"@
            &&& request.title is None ==> input.workstream_title == "仅更新该 Session 摘要（"@
                + "该会话"@ + "）"@
            &&& present ==> (request.existing matches Some(c) ==> input.sessions[0].existing
                == Some(c.deep_view().fields) && input.sessions[0].existing_revision == Some(
                c.revision,
            ))
            &&& !present ==> input.sessions[0].existing is None
                && input.sessions[0].existing_revision is None
        }),
{
}

} // verus!
