//! Updating the summary of a session.
//!
//! [`update_session`] decides on the rows as they are: there may be nothing to do, a summary of a
//! conversation that is gone may have to be cleared, or a model has to be asked.
//! [`finish_session_update`] takes the model's answer and writes the new summary, provided that
//! the summary, the conversation and the messages that were sent are still what they were.
use crate::bytes::byte_len;
use crate::context::diagnostics::ContextOperation;
use crate::context::launch::{
    begin_update, configured, launch_fault, moved, noted, require_cli, CliExtractor,
    ContextLaunchConfig, ContextUpdateStatus,
};
use crate::context::parts::MESSAGE_LIMIT;
use crate::context::select::{
    few_enough, renders, room, select_message_prefix, session_input, too_many, SessionRequest,
};
use crate::context::views::{covered, outdated, revision_of};
use crate::domain::copy_text;
use crate::error::{other, AppError, ContextFault, ContextUpdateError, Fault};
use crate::store::{
    at_most, message_ids, messages_behind, messages_of, session_in, ContextRow, Fields,
    SessionContextFields, SessionContextRecord, SessionMessage, Store,
};
use crate::sync::{ContextUpdateOutput, InputLimits, Prompt, PromptInput};
use crate::text::{same, texts};
use vstd::prelude::*;

verus! {

/// What became of an update of a session.
pub struct SessionUpdateOutcome {
    pub session_id: String,
    pub status: ContextUpdateStatus,
    pub revision: i64,
}

/// A question to a model about a session, with what the answer rests on.
pub struct SessionAsk {
    pub cli: CliExtractor,
    pub session_id: String,
    pub prompt: Prompt,
    pub expect_revision: i64,
    pub generation: i64,
    pub from: i64,
    pub upper: i64,
    pub prefix: Vec<String>,
    pub latest_message_seq: i64,
}

/// What is to be done about a session.
pub enum SessionStep {
    Done(SessionUpdateOutcome),
    Ask(SessionAsk),
}

/// The counters of a summary leave room for what one update can add.
pub open spec fn countable(context: Option<ContextRow>) -> bool {
    context matches Some(c) ==> 0 <= c.processed_through_seq <= i64::MAX - MESSAGE_LIMIT
        && c.revision < i64::MAX
}

/// Whether the counters of a session's summary leave room for what one update can add.
pub fn is_countable(store: &Store, session_id: &str) -> (r: bool)
    ensures
        r == countable(store.summary(session_id@)),
{
    match store.get_session_context(session_id) {
        Some(c) => 0 <= c.processed_through_seq && c.processed_through_seq <= i64::MAX
            - MESSAGE_LIMIT as i64 && c.revision < i64::MAX,
        None => true,
    }
}

/// The session is there, and not in the trash.
pub open spec fn live(store: Store, session: Seq<char>) -> bool {
    session_in(store.sessions@, session) matches Some(s) && s.trashed_at is None
}

/// The messages that the summary of a session does not cover.
pub open spec fn uncovered(store: Store, session: Seq<char>) -> Seq<SessionMessage> {
    let from = covered(store.summary(session), store.reading(session).0);
    at_most(messages_behind(store.messages@, session, from as int), MESSAGE_LIMIT as nat)
}

// ---------------------------------------------------------------------------
// Writing
// ---------------------------------------------------------------------------

/// Whether the messages from a place on are still those.
pub open spec fn still_there(ids: Seq<Seq<char>>, from: int, prefix: Seq<Seq<char>>) -> bool {
    prefix.len() == 0 || (from + prefix.len() <= ids.len() && ids.subrange(
        from,
        from + prefix.len(),
    ) == prefix)
}

/// Whether a session still is what an update was based on: its summary, its conversation, and the
/// messages that were sent.
pub open spec fn unmoved(
    store: Store,
    session: Seq<char>,
    revision: i64,
    generation: i64,
    from: i64,
    upper: i64,
    prefix: Seq<Seq<char>>,
) -> bool {
    let ids = message_ids(messages_of(store.messages@, session));
    &&& revision_of(store.summary(session)) == revision
    &&& store.reading(session).0 == generation
    &&& ids.len() >= upper
    &&& still_there(ids, from as int, prefix)
}

/// Whether the messages of a session from a place on are still those.
pub(crate) fn is_still_there(ids: &Vec<String>, from: i64, prefix: &Vec<String>) -> (r: bool)
    requires
        from >= 0,
    ensures
        r == still_there(texts(ids@), from as int, texts(prefix@)),
{
    let ghost all = texts(ids@);
    let ghost wanted = texts(prefix@);
    assert(all.len() == ids@.len());
    assert(wanted.len() == prefix@.len());
    if prefix.len() == 0 {
        return true;
    }
    if from as u64 > ids.len() as u64 {
        return false;
    }
    let start: usize = from as usize;
    let total: usize = ids.len();
    if prefix.len() > total - start {
        return false;
    }
    let ghost there = all.subrange(from as int, from + wanted.len());
    let mut i: usize = 0;
    while i < prefix.len()
        invariant
            i <= prefix@.len(),
            start == from,
            total == ids@.len(),
            start + prefix@.len() <= total,
            all == texts(ids@),
            wanted == texts(prefix@),
            there == all.subrange(from as int, from + wanted.len()),
            there.len() == wanted.len(),
            forall|k: int| 0 <= k < i ==> there[k] == #[trigger] wanted[k],
        decreases prefix@.len() - i,
    {
        assert(wanted[i as int] == prefix@[i as int]@);
        assert(there[i as int] == ids@[start + i]@);
        if !same(ids[start + i].as_str(), prefix[i].as_str()) {
            assert(there != wanted);
            return false;
        }
        i = i + 1;
    }
    assert(there =~= wanted);
    true
}

/// Writes a new summary of a session, provided that the session still is what it was based on.
/// Nothing is written otherwise.
pub fn commit_session_update(
    store: &mut Store,
    session_id: &str,
    expect_rev: i64,
    generation: i64,
    from: i64,
    upper: i64,
    prefix: &Vec<String>,
    fields: &SessionContextFields,
    now: &str,
) -> (r: Option<i64>)
    requires
        from >= 0,
        upper >= 0,
        expect_rev < i64::MAX,
    ensures
        if unmoved(
            *old(store),
            session_id@,
            expect_rev,
            generation,
            from,
            upper,
            texts(prefix@),
        ) {
            &&& r == Some((expect_rev + 1) as i64)
            &&& final(store).summaries() == old(store).summaries().insert(
                session_id@,
                ContextRow {
                    session_id: session_id@,
                    fields: fields.deep_view(),
                    revision: (expect_rev + 1) as i64,
                    ingest_generation: generation,
                    processed_through_seq: upper,
                    updated_at: now@,
                },
            )
            &&& *final(store) == (Store { contexts: final(store).contexts, ..*old(store) })
        } else {
            r is None && *final(store) == *old(store)
        },
{
    let cur_rev: i64 = match store.get_session_context(session_id) {
        Some(c) => c.revision,
        None => 0,
    };
    if cur_rev != expect_rev {
        return None;
    }
    if store.get_session_ingest_state(session_id).generation != generation {
        return None;
    }
    let ids = store.projection_ids(session_id);
    assert(texts(ids@).len() == ids@.len());
    if (ids.len() as u64) < upper as u64 {
        return None;
    }
    if !is_still_there(&ids, from, prefix) {
        return None;
    }
    let rev = store.commit_session_context(session_id, fields, expect_rev, generation, upper, now);
    Some(rev)
}

// ---------------------------------------------------------------------------
// Deciding
// ---------------------------------------------------------------------------

/// The question rests on the rows as they are, and asks about as many messages as fit.
pub open spec fn asks<F: Fn(&PromptInput) -> Prompt>(
    ask: SessionAsk,
    store: Store,
    session: Seq<char>,
    title: Option<Seq<char>>,
    launch: ContextLaunchConfig,
    render: F,
    limits: InputLimits,
) -> bool {
    let context = store.summary(session);
    let (generation, latest) = store.reading(session);
    let messages = uncovered(store, session);
    let n = ask.prefix@.len() as int;
    &&& launch.agent == Some(ask.cli.agent)
    &&& launch.opts == Some(ask.cli.opts)
    &&& ask.session_id@ == session
    &&& 1 <= n <= messages.len()
    &&& renders(
        render,
        session_input(session, title, context, generation, messages.take(n)),
        ask.prompt,
    )
    &&& byte_len(ask.prompt.text@) <= room(limits.input_limit, limits.session_reserve as int)
    &&& ask.expect_revision == revision_of(context)
    &&& ask.generation == generation
    &&& ask.from == covered(context, generation)
    &&& ask.upper == ask.from + n
    &&& texts(ask.prefix@) == message_ids(messages.take(n))
    &&& ask.latest_message_seq == latest
}

/// A prompt about the first uncovered messages was seen to be too large.
pub open spec fn seen_too_large<F: Fn(&PromptInput) -> Prompt>(
    store: Store,
    session: Seq<char>,
    title: Option<Seq<char>>,
    render: F,
    limits: InputLimits,
    n: int,
) -> bool {
    exists|p: Prompt|
        #[trigger] renders(
            render,
            session_input(
                session,
                title,
                store.summary(session),
                store.reading(session).0,
                uncovered(store, session).take(n),
            ),
            p,
        ) && byte_len(p.text@) > room(limits.input_limit, limits.session_reserve as int)
}

/// A prompt about the first uncovered messages was seen to fit.
pub open spec fn seen_to_fit<F: Fn(&PromptInput) -> Prompt>(
    store: Store,
    session: Seq<char>,
    title: Option<Seq<char>>,
    render: F,
    limits: InputLimits,
    n: int,
) -> bool {
    exists|p: Prompt|
        #[trigger] renders(
            render,
            session_input(
                session,
                title,
                store.summary(session),
                store.reading(session).0,
                uncovered(store, session).take(n),
            ),
            p,
        ) && byte_len(p.text@) <= room(limits.input_limit, limits.session_reserve as int)
}

fn first_ids(messages: &Vec<SessionMessage>, n: usize) -> (r: Vec<String>)
    requires
        n <= messages@.len(),
    ensures
        texts(r@) == message_ids(messages@.take(n as int)),
{
    let mut out: Vec<String> = Vec::new();
    let mut i: usize = 0;
    assert(texts(out@) =~= message_ids(messages@.take(0)));
    while i < n
        invariant
            i <= n,
            n <= messages@.len(),
            texts(out@) == message_ids(messages@.take(i as int)),
        decreases n - i,
    {
        let ghost before = texts(out@);
        out.push(messages[i].id.clone());
        assert(texts(out@) =~= before.push(messages@[i as int].id@));
        i = i + 1;
        assert(message_ids(messages@.take(i as int)) =~= message_ids(messages@.take(i - 1)).push(
            messages@[i - 1].id@,
        ));
    }
    out
}

/// Decides what an update of a session does. No model is asked where there is nothing new, and a
/// summary of a conversation that was replaced by an empty one is cleared. `render` makes a prompt
/// of its parts.
pub fn update_session<F: Fn(&PromptInput) -> Prompt>(
    store: &mut Store,
    session_id: &str,
    launch: &ContextLaunchConfig,
    operation: &mut ContextOperation,
    render: &F,
    limits: &InputLimits,
    now: &str,
) -> (r: Result<SessionStep, AppError>)
    requires
        old(operation).home is Some && live(*old(store), session_id@) ==> countable(
            old(store).summary(session_id@),
        ),
        forall|i: PromptInput| #[trigger] call_requires(*render, (&i,)),
    ensures
        ({
            let context = old(store).summary(session_id@);
            let generation = old(store).reading(session_id@).0;
            let messages = uncovered(*old(store), session_id@);
            let c = ContextOperation {
                agent: final(operation).agent,
                model_override: final(operation).model_override,
                ..*old(operation)
            };
            &&& configured(*old(operation), *launch, c)
            &&& if old(operation).home is None {
                &&& *final(store) == *old(store)
                &&& r is Err
                &&& r->Err_0.deep_view() == Fault::Other("context home unavailable"@)
                &&& noted(
                    c,
                    *final(operation),
                    "home_resolution"@,
                    "home_unavailable"@,
                    "NoEnding Home 未初始化，无法安全运行 Context Agent。"@,
                )
            } else {
                match session_in(old(store).sessions@, session_id@) {
                    None => {
                        &&& *final(store) == *old(store)
                        &&& r is Err
                        &&& r->Err_0.deep_view() == Fault::Other("会话不存在"@)
                        &&& noted(
                            c,
                            *final(operation),
                            "snapshot"@,
                            "session_missing"@,
                            "找不到要更新的会话。"@,
                        )
                    },
                    Some(s) => if s.trashed_at is Some {
                        &&& *final(store) == *old(store)
                        &&& r is Err
                        &&& r->Err_0.deep_view() == Fault::Other(
                            "会话已移入回收站，暂不可更新摘要"@,
                        )
                        &&& noted(
                            c,
                            *final(operation),
                            "snapshot"@,
                            "session_trashed"@,
                            "会话已移入回收站，恢复后才能更新摘要。"@,
                        )
                    } else if messages.len() == 0 && outdated(context, generation) {
                        &&& r matches Ok(SessionStep::Done(o))
                        &&& r->Ok_0->Done_0.session_id@ == session_id@
                        &&& r->Ok_0->Done_0.status == ContextUpdateStatus::Updated
                        &&& r->Ok_0->Done_0.revision == revision_of(context) + 1
                        &&& final(store).summaries() == old(store).summaries().insert(
                            session_id@,
                            ContextRow {
                                session_id: session_id@,
                                fields: Fields::blank(),
                                revision: (revision_of(context) + 1) as i64,
                                ingest_generation: generation,
                                processed_through_seq: 0,
                                updated_at: now@,
                            },
                        )
                        &&& *final(store) == (Store {
                            contexts: final(store).contexts,
                            ..*old(store)
                        })
                        &&& moved(c, *final(operation), "database_commit"@)
                    } else if messages.len() == 0 {
                        &&& *final(store) == *old(store)
                        &&& r matches Ok(SessionStep::Done(o))
                        &&& r->Ok_0->Done_0.session_id@ == session_id@
                        &&& r->Ok_0->Done_0.status == ContextUpdateStatus::NoChange
                        &&& r->Ok_0->Done_0.revision == revision_of(context)
                        &&& *final(operation) == c
                    } else {
                        &&& *final(store) == *old(store)
                        &&& match launch_fault(*launch) {
                            Some((code, message, text)) => {
                                &&& r is Err
                                &&& r->Err_0.deep_view() == Fault::Context(
                                    ContextFault::AiUnavailable(text),
                                )
                                &&& noted(
                                    c,
                                    *final(operation),
                                    "runtime_configuration"@,
                                    code,
                                    message,
                                )
                            },
                            None => {
                                let title = s.title.deep_view();
                                let len = messages.len() as int;
                                &&& moved(c, *final(operation), "input_preparation"@)
                                &&& match r {
                                    Ok(SessionStep::Ask(ask)) => {
                                        let n = ask.prefix@.len() as int;
                                        &&& asks(
                                            ask,
                                            *old(store),
                                            session_id@,
                                            title,
                                            *launch,
                                            *render,
                                            *limits,
                                        )
                                        &&& n < len ==> seen_too_large(
                                            *old(store),
                                            session_id@,
                                            title,
                                            *render,
                                            *limits,
                                            n + 1,
                                        )
                                        &&& n < len ==> seen_too_large(
                                            *old(store),
                                            session_id@,
                                            title,
                                            *render,
                                            *limits,
                                            len,
                                        )
                                        &&& n < len ==> seen_to_fit(
                                            *old(store),
                                            session_id@,
                                            title,
                                            *render,
                                            *limits,
                                            1,
                                        )
                                    },
                                    Ok(SessionStep::Done(_)) => false,
                                    Err(e) => {
                                        &&& e.deep_view() == Fault::Context(
                                            ContextFault::InputTooLarge(
                                                "即使最小的请求也超出输入预算"@,
                                            ),
                                        )
                                        &&& seen_too_large(
                                            *old(store),
                                            session_id@,
                                            title,
                                            *render,
                                            *limits,
                                            1,
                                        )
                                        &&& seen_too_large(
                                            *old(store),
                                            session_id@,
                                            title,
                                            *render,
                                            *limits,
                                            len,
                                        )
                                    },
                                }
                            },
                        }
                    },
                }
            }
        }),
{
    match begin_update(launch, operation) {
        Err(e) => {
            return Err(e);
        },
        Ok(()) => {},
    }
    let session = match store.get_session(session_id) {
        Some(s) => s.copy(),
        None => {
            operation.fail_with("snapshot", "session_missing", "找不到要更新的会话。");
            return Err(other("会话不存在"));
        },
    };
    if session.is_trashed() {
        operation.fail_with(
            "snapshot",
            "session_trashed",
            "会话已移入回收站，恢复后才能更新摘要。",
        );
        return Err(other("会话已移入回收站，暂不可更新摘要"));
    }
    let ingest = store.get_session_ingest_state(session_id);
    let existing: Option<SessionContextRecord> = match store.get_session_context(session_id) {
        Some(c) => Some(c.copy()),
        None => None,
    };
    let expect_rev: i64 = match &existing {
        Some(c) => c.revision,
        None => 0,
    };
    let is_outdated: bool = match &existing {
        Some(c) => c.ingest_generation != ingest.generation,
        None => false,
    };
    let from: i64 = match &existing {
        Some(c) => {
            if is_outdated {
                0
            } else {
                c.processed_through_seq
            }
        },
        None => 0,
    };
    let all = store.get_messages_after(session_id, from, MESSAGE_LIMIT);
    if all.len() == 0 {
        if is_outdated {
            operation.set_stage("database_commit");
            let none: Vec<String> = Vec::new();
            let committed = commit_session_update(
                store,
                session_id,
                expect_rev,
                ingest.generation,
                0,
                0,
                &none,
                &SessionContextFields::default(),
                now,
            );
            return match committed {
                Some(revision) => Ok(
                    SessionStep::Done(
                        SessionUpdateOutcome {
                            session_id: session_id.to_owned(),
                            status: ContextUpdateStatus::Updated,
                            revision,
                        },
                    ),
                ),
                None => Err(conflict("内容已变化，请重新更新")),
            };
        }
        return Ok(
            SessionStep::Done(
                SessionUpdateOutcome {
                    session_id: session_id.to_owned(),
                    status: ContextUpdateStatus::NoChange,
                    revision: expect_rev,
                },
            ),
        );
    }
    operation.set_stage("runtime_configuration");
    let cli = match require_cli(launch, operation) {
        Ok(cli) => cli,
        Err(e) => {
            return Err(e);
        },
    };
    operation.set_stage("input_preparation");
    let request = SessionRequest {
        session_id: session_id.to_owned(),
        title: copy_text(&session.title),
        existing,
        generation: ingest.generation,
    };
    let ghost title = session.title.deep_view();
    assert(forall|n: int| #[trigger]
        request.about(all@.take(n)) == session_input(
            session_id@,
            title,
            store.summary(session_id@),
            store.reading(session_id@).0,
            uncovered(*store, session_id@).take(n),
        ));
    match select_message_prefix(render, &request, &all, limits) {
        Err(e) => {
            proof {
                large_stays_large(*render, request, all@, *store, title, *limits, 1);
                large_stays_large(*render, request, all@, *store, title, *limits, all@.len() as int);
            }
            Err(e)
        },
        Ok((n, prompt)) => {
            proof {
                if n < all@.len() {
                    large_stays_large(*render, request, all@, *store, title, *limits, n + 1);
                    large_stays_large(
                        *render,
                        request,
                        all@,
                        *store,
                        title,
                        *limits,
                        all@.len() as int,
                    );
                    small_stays_small(*render, request, all@, *store, title, *limits, 1);
                }
            }
            let prefix = first_ids(&all, n);
            assert(texts(prefix@).len() == prefix@.len());
            assert(message_ids(all@.take(n as int)).len() == n);
            Ok(
                SessionStep::Ask(
                    SessionAsk {
                        cli,
                        session_id: session_id.to_owned(),
                        prompt,
                        expect_revision: expect_rev,
                        generation: ingest.generation,
                        from,
                        upper: from + n as i64,
                        prefix,
                        latest_message_seq: ingest.latest_message_seq,
                    },
                ),
            )
        },
    }
}

proof fn large_stays_large<F: Fn(&PromptInput) -> Prompt>(
    render: F,
    request: SessionRequest,
    all: Seq<SessionMessage>,
    store: Store,
    title: Option<Seq<char>>,
    limits: InputLimits,
    n: int,
)
    requires
        too_many(
            render,
            request,
            all,
            n,
            room(limits.input_limit, limits.session_reserve as int),
        ),
        request.about(all.take(n)) == session_input(
            request.session_id@,
            title,
            store.summary(request.session_id@),
            store.reading(request.session_id@).0,
            uncovered(store, request.session_id@).take(n),
        ),
    ensures
        seen_too_large(store, request.session_id@, title, render, limits, n),
{
    let p = choose|p: Prompt|
        #[trigger] renders(render, request.about(all.take(n)), p) && byte_len(p.text@) > room(
            limits.input_limit,
            limits.session_reserve as int,
        );
    assert(renders(
        render,
        session_input(
            request.session_id@,
            title,
            store.summary(request.session_id@),
            store.reading(request.session_id@).0,
            uncovered(store, request.session_id@).take(n),
        ),
        p,
    ));
}

proof fn small_stays_small<F: Fn(&PromptInput) -> Prompt>(
    render: F,
    request: SessionRequest,
    all: Seq<SessionMessage>,
    store: Store,
    title: Option<Seq<char>>,
    limits: InputLimits,
    n: int,
)
    requires
        few_enough(
            render,
            request,
            all,
            n,
            room(limits.input_limit, limits.session_reserve as int),
        ),
        request.about(all.take(n)) == session_input(
            request.session_id@,
            title,
            store.summary(request.session_id@),
            store.reading(request.session_id@).0,
            uncovered(store, request.session_id@).take(n),
        ),
    ensures
        seen_to_fit(store, request.session_id@, title, render, limits, n),
{
    let p = choose|p: Prompt|
        #[trigger] renders(render, request.about(all.take(n)), p) && byte_len(p.text@) <= room(
            limits.input_limit,
            limits.session_reserve as int,
        );
    assert(renders(
        render,
        session_input(
            request.session_id@,
            title,
            store.summary(request.session_id@),
            store.reading(request.session_id@).0,
            uncovered(store, request.session_id@).take(n),
        ),
        p,
    ));
}

pub(crate) fn conflict(message: &str) -> (e: AppError)
    ensures
        e.deep_view() == Fault::Context(ContextFault::ConcurrencyConflict(message@)),
{
    AppError::Context(ContextUpdateError::ConcurrencyConflict(message.to_owned()))
}

pub(crate) fn invalid_output(message: &str) -> (e: AppError)
    ensures
        e.deep_view() == Fault::Context(ContextFault::InvalidOutput(message@)),
{
    AppError::Context(ContextUpdateError::InvalidOutput(message.to_owned()))
}

// ---------------------------------------------------------------------------
// Finishing
// ---------------------------------------------------------------------------

/// Ends an update of a session with the model's answer, which is the summaries that could be read
/// from it, or why nothing could. An answer that is of no use, and one that comes too late,
/// change nothing.
pub fn finish_session_update(
    store: &mut Store,
    ask: &SessionAsk,
    answer: &Result<ContextUpdateOutput, String>,
    operation: &mut ContextOperation,
    now: &str,
) -> (r: Result<SessionUpdateOutcome, AppError>)
    requires
        ask.from >= 0,
        ask.upper >= 0,
        ask.expect_revision < i64::MAX,
    ensures
        match answer {
            Err(why) => {
                &&& r is Err
                &&& r->Err_0.deep_view() == Fault::Context(ContextFault::InvalidOutput(why@))
                &&& *final(store) == *old(store)
                &&& moved(*old(operation), *final(operation), "output_validation"@)
            },
            Ok(output) => if output.session_contexts@.len() == 0 {
                &&& r is Err
                &&& r->Err_0.deep_view() == Fault::Context(
                    ContextFault::InvalidOutput("缺少摘要输出"@),
                )
                &&& *final(store) == *old(store)
                &&& moved(*old(operation), *final(operation), "output_validation"@)
            } else {
                &&& moved(*old(operation), *final(operation), "database_commit"@)
                &&& if unmoved(
                    *old(store),
                    ask.session_id@,
                    ask.expect_revision,
                    ask.generation,
                    ask.from,
                    ask.upper,
                    texts(ask.prefix@),
                ) {
                    &&& r is Ok
                    &&& r->Ok_0.session_id@ == ask.session_id@
                    &&& r->Ok_0.revision == ask.expect_revision + 1
                    &&& r->Ok_0.status == (if ask.upper >= ask.latest_message_seq {
                        ContextUpdateStatus::Updated
                    } else {
                        ContextUpdateStatus::Partial
                    })
                    &&& final(store).summaries() == old(store).summaries().insert(
                        ask.session_id@,
                        ContextRow {
                            session_id: ask.session_id@,
                            fields: output.session_contexts@[0].fields.deep_view(),
                            revision: (ask.expect_revision + 1) as i64,
                            ingest_generation: ask.generation,
                            processed_through_seq: ask.upper,
                            updated_at: now@,
                        },
                    )
                    &&& *final(store) == (Store { contexts: final(store).contexts, ..*old(store) })
                } else {
                    &&& r is Err
                    &&& r->Err_0.deep_view() == Fault::Context(
                        ContextFault::ConcurrencyConflict("内容已变化，请重新更新"@),
                    )
                    &&& *final(store) == *old(store)
                }
            },
        },
{
    operation.set_stage("output_validation");
    let output = match answer {
        Ok(o) => o,
        Err(why) => {
            return Err(invalid_output(why.as_str()));
        },
    };
    if output.session_contexts.len() == 0 {
        return Err(invalid_output("缺少摘要输出"));
    }
    operation.set_stage("database_commit");
    let committed = commit_session_update(
        store,
        ask.session_id.as_str(),
        ask.expect_revision,
        ask.generation,
        ask.from,
        ask.upper,
        &ask.prefix,
        &output.session_contexts[0].fields,
        now,
    );
    match committed {
        Some(revision) => Ok(
            SessionUpdateOutcome {
                session_id: ask.session_id.clone(),
                status: if ask.upper >= ask.latest_message_seq {
                    ContextUpdateStatus::Updated
                } else {
                    ContextUpdateStatus::Partial
                },
                revision,
            },
        ),
        None => Err(conflict("内容已变化，请重新更新")),
    }
}

/// The counters of a summary leave room where they are no larger than that.
pub proof fn when_an_update_can_be_counted(c: ContextRow)
    ensures
        countable(None),
        countable(Some(c)) <==> 0 <= c.processed_through_seq && c.processed_through_seq
            + MESSAGE_LIMIT <= i64::MAX && c.revision < i64::MAX,
{
}

/// A session can be updated where it is there and not in the trash.
pub proof fn when_a_session_is_live(store: Store, session: Seq<char>)
    ensures
        session_in(store.sessions@, session) is None ==> !live(store, session),
        session_in(store.sessions@, session) matches Some(s) ==> (live(store, session)
            <==> s.trashed_at is None),
{
}

/// What was seen of the first uncovered messages: a prompt of them, larger than there is room for,
/// or not.
pub proof fn what_was_seen_of_the_news<F: Fn(&PromptInput) -> Prompt>(
    store: Store,
    session: Seq<char>,
    title: Option<Seq<char>>,
    render: F,
    limits: InputLimits,
    n: int,
)
    ensures
        ({
            let input = session_input(
                session,
                title,
                store.summary(session),
                store.reading(session).0,
                uncovered(store, session).take(n),
            );
            let room = if limits.input_limit > limits.session_reserve {
                limits.input_limit - limits.session_reserve
            } else {
                0
            };
            &&& seen_too_large(store, session, title, render, limits, n) <==> exists|p: Prompt|
                #[trigger] renders(render, input, p) && byte_len(p.text@) > room
            &&& seen_to_fit(store, session, title, render, limits, n) <==> exists|p: Prompt|
                #[trigger] renders(render, input, p) && byte_len(p.text@) <= room
        }),
{
}

} // verus!
