//! What a reading of sources promises: which files are looked at, whose they are, where a reading
//! begins, what each line brings, and how an agent is started.
use crate::adapters::discovery::{members_in, sessions_in, MemberFinder, SessionFinder};
use crate::adapters::fingerprint::{format_of, writer_of, MAX_PARSE_LINES};
use crate::adapters::reader::{
    complete_part, delta_of, kept_source, line_start, line_time, mtime_differs, placed, plan_start,
    progress, read_plan, replayed_source, source_after, stats_of, LineFormat, Provenance, ReadPlan,
    SourceFile, StatsCapabilities,
};
use crate::adapters::registry::{
    exec_args, new_args, no_answer, no_launch, no_resume, resume_args,
};
use crate::adapters::events::{EventFormat, FoundSession};
use crate::adapters::{
    argument, autoclaw, claude, codex, dsh, pi, qoder, workbuddy, ExecOptions, Member,
};
use crate::bytes::{byte_len, lossy_text, sha256};
use crate::domain::{Agent, MemberObservation, Message, SessionMemberCursor, StatsUpdate};
use crate::json::{parsed, Tree};
use crate::paths::FoundFile;
use crate::text::{blank, decimal, raw_lines_of, trimmed, without_cr};
use crate::time::rfc3339_of_millis;
use vstd::prelude::*;
use vstd::utf8::encode_utf8;

verus! {

// ---------------------------------------------------------------------------
// Counters
// ---------------------------------------------------------------------------

/// Observations add up, each counter for itself; a counter stays at its largest value.
pub proof fn observations_add_up(a: MemberObservation, b: MemberObservation)
    ensures
        a.tool_calls + b.tool_calls <= u64::MAX ==> a.plus(b).tool_calls == a.tool_calls
            + b.tool_calls,
        a.tool_errors + b.tool_errors <= u64::MAX ==> a.plus(b).tool_errors == a.tool_errors
            + b.tool_errors,
        a.compactions + b.compactions <= u64::MAX ==> a.plus(b).compactions == a.compactions
            + b.compactions,
        a.side_activity + b.side_activity <= u64::MAX ==> a.plus(b).side_activity
            == a.side_activity + b.side_activity,
        a.tool_calls + b.tool_calls > u64::MAX ==> a.plus(b).tool_calls == u64::MAX,
        MemberObservation::nothing().tool_calls == 0,
        MemberObservation::nothing().tool_errors == 0,
        MemberObservation::nothing().compactions == 0,
        MemberObservation::nothing().side_activity == 0,
{
}

/// A reading from the beginning replaces the counters that the format shows, and says nothing of
/// the others.
pub proof fn a_full_reading_replaces_the_counters(o: MemberObservation, c: StatsCapabilities)
    ensures
        stats_of(o, 0, c) matches Some(StatsUpdate::Snapshot(s)) && {
            &&& s.tool_call_count == (if c.tool_calls {
                Some(o.tool_calls as i64)
            } else {
                None
            })
            &&& s.tool_error_count == (if c.tool_errors {
                Some(o.tool_errors as i64)
            } else {
                None
            })
            &&& s.compaction_count == (if c.compactions {
                Some(o.compactions as i64)
            } else {
                None
            })
            &&& s.side_activity_count == (if c.side_activity {
                Some(o.side_activity as i64)
            } else {
                None
            })
        },
{
}

/// A reading of what was appended adds what it saw, and changes no counter where it saw nothing.
pub proof fn an_append_adds_to_the_counters(o: MemberObservation, start: int, c: StatsCapabilities)
    requires
        start > 0,
    ensures
        stats_of(o, start, c) is None <==> !(c.tool_calls && o.tool_calls > 0) && !(c.tool_errors
            && o.tool_errors > 0) && !(c.compactions && o.compactions > 0) && !(c.side_activity
            && o.side_activity > 0),
        stats_of(o, start, c) matches Some(u) ==> u is Delta,
        stats_of(o, start, c) matches Some(StatsUpdate::Delta(d)) ==> {
            &&& d.tool_call_count == (if c.tool_calls && o.tool_calls > 0 {
                Some(o.tool_calls as i64)
            } else {
                None
            })
            &&& d.tool_error_count == (if c.tool_errors && o.tool_errors > 0 {
                Some(o.tool_errors as i64)
            } else {
                None
            })
            &&& d.compaction_count == (if c.compactions && o.compactions > 0 {
                Some(o.compactions as i64)
            } else {
                None
            })
            &&& d.side_activity_count == (if c.side_activity && o.side_activity > 0 {
                Some(o.side_activity as i64)
            } else {
                None
            })
        },
{
}

// ---------------------------------------------------------------------------
// Lines
// ---------------------------------------------------------------------------

/// A line was written when its `timestamp` says, as a text or in milliseconds.
pub proof fn when_a_line_was_written(v: Tree, s: Seq<char>, ms: i64)
    ensures
        v.field("timestamp"@) == Some(Tree::Text(s)) ==> line_time(v) == Some(s),
        v.field("timestamp"@) == Some(Tree::Number(Some(ms))) ==> line_time(v) == rfc3339_of_millis(
            ms,
        ),
        v.field("timestamp"@) is None ==> line_time(v) is None,
        v.field("timestamp"@) matches Some(t) && !(t is Text) && !(t is Number) ==> line_time(
            v,
        ) is None,
{
}

/// Filling in the place and the time of a message leaves all that it says.
pub proof fn placing_fills_in_only(m: Message, idx: int, time: Option<Seq<char>>)
    ensures
        ({
            let p = placed(m, idx, time);
            &&& p.source_message_id == m.source_message_id
            &&& p.role == m.role
            &&& p.content == m.content
            &&& p.provider == m.provider
            &&& p.model == m.model
            &&& m.source_position.len() > 0 ==> p.source_position == m.source_position
            &&& m.source_position.len() == 0 ==> p.source_position == "line:"@ + decimal(
                (idx + 1) as nat,
            )
            &&& m.ts is Some ==> p.ts == m.ts
            &&& m.ts is None ==> p.ts == time
        }),
{
}

/// Every line in reach that is a document is read, in order, and brings its message, if that says
/// anything, and its counts; no other line brings anything.
pub proof fn one_more_line<F: LineFormat>(
    f: F,
    ls: Seq<Seq<char>>,
    from: int,
    end: int,
    state: Provenance,
    n: int,
)
    requires
        0 <= n < ls.len(),
    ensures
        ({
            let first = progress(f, ls, from, end, state, 0);
            &&& first.messages.len() == 0
            &&& first.observation == MemberObservation::nothing()
            &&& first.state == state
        }),
        ({
            let was = progress(f, ls, from, end, state, n);
            let is = progress(f, ls, from, end, state, n + 1);
            let line = without_cr(ls[n]);
            let in_reach = from <= line_start(ls, n) < end;
            &&& !in_reach || blank(line) || parsed(line) is None ==> is == was
            &&& in_reach && !blank(line) ==> (parsed(line) matches Some(v) ==> {
                let read = f.reading(n, v, was.state);
                &&& is.state == read.1
                &&& read.0 is None ==> is.messages == was.messages && is.observation
                    == was.observation
                &&& read.0 matches Some(l) ==> {
                    &&& is.observation == was.observation.plus(l.observation)
                    &&& l.message is None ==> is.messages == was.messages
                    &&& l.message matches Some(m) ==> {
                        &&& blank(m.content) ==> is.messages == was.messages
                        &&& !blank(m.content) ==> is.messages == was.messages.push(
                            placed(m, n, line_time(v)),
                        )
                    }
                }
            })
        }),
{
}

/// Each line begins behind the one before it and its line end.
pub proof fn where_a_line_begins(ls: Seq<Seq<char>>, i: int)
    requires
        0 <= i,
    ensures
        line_start(ls, 0) == 0,
        line_start(ls, i + 1) == line_start(ls, i) + byte_len(ls[i]) + 1,
{
}

/// The complete lines of a text are all of it up to its last line end.
pub proof fn complete_lines_end_with_the_last_line_end(s: Seq<char>)
    ensures
        complete_part(s).len() <= s.len(),
        complete_part(s) == s.take(complete_part(s).len() as int),
        complete_part(s).len() > 0 ==> complete_part(s).last() == '\n',
        forall|i: int| complete_part(s).len() <= i < s.len() ==> #[trigger] s[i] != '\n',
    decreases s.len(),
{
    if s.len() == 0 || s.last() == '\n' {
        assert(s.take(s.len() as int) =~= s);
    } else {
        let front = s.drop_last();
        complete_lines_end_with_the_last_line_end(front);
        let n = complete_part(s).len() as int;
        assert(front.take(n) =~= s.take(n));
        assert forall|i: int| n <= i < s.len() implies #[trigger] s[i] != '\n' by {
            if i < front.len() {
                assert(front[i] == s[i]);
            }
        }
    }
}

// ---------------------------------------------------------------------------
// Where a reading begins
// ---------------------------------------------------------------------------

/// The bytes that were consumed are still the head of the text.
pub open spec fn still_there(cursor: SessionMemberCursor, bytes: Seq<u8>) -> bool {
    if cursor.byte_offset <= bytes.len() {
        sha256(bytes.take(cursor.byte_offset as int)) == cursor.prefix_hash@
    } else {
        sha256(bytes) == cursor.prefix_hash@
    }
}

/// Two times of modification tell of a change where they are more than a microsecond apart, or
/// where one of them is missing.
pub proof fn when_a_time_tells_of_a_change(x: i64, y: i64)
    ensures
        !mtime_differs(None, None),
        mtime_differs(Some(x), None),
        mtime_differs(None, Some(y)),
        mtime_differs(Some(x), Some(y)) <==> x > y + 1000 || y > x + 1000,
{
}

/// A source is left alone only where the same file has its size and its time; it is read on only
/// where the same file grew and what was consumed is still its head. All else is read anew, as the
/// next generation; what was never read, as the first.
pub proof fn where_a_reading_begins(cursor: SessionMemberCursor, file: SourceFile)
    ensures
        ({
            let size = file.data@.len();
            let never = cursor.source_file_identity@.len() == 0 && cursor.last_seen_size == 0;
            let same = file.identity@ == cursor.source_file_identity@;
            let unchanged = !never && same && size == cursor.last_seen_size && !mtime_differs(
                cursor.mtime,
                file.mtime,
            );
            let grew = !never && same && size > cursor.last_seen_size && cursor.prefix_hash@.len()
                > 0 && cursor.byte_offset <= size && still_there(
                cursor,
                encode_utf8(lossy_text(file.data@)),
            );
            &&& unchanged ==> read_plan(cursor, file) == ReadPlan::Unchanged
            &&& grew ==> read_plan(cursor, file) == (ReadPlan::Append {
                from: cursor.byte_offset as int,
            })
            &&& never ==> read_plan(cursor, file) == (ReadPlan::Rescan { generation: 0 })
            &&& !never && !unchanged && !grew ==> read_plan(cursor, file) == (ReadPlan::Rescan {
                generation: cursor.generation + 1,
            })
            &&& unchanged ==> plan_start(cursor, read_plan(cursor, file)) is None
            &&& grew ==> plan_start(cursor, read_plan(cursor, file)) == Some(
                (cursor.generation as int, cursor.byte_offset as int),
            )
            &&& never ==> plan_start(cursor, read_plan(cursor, file)) == Some((0int, 0int))
            &&& !never && !unchanged && !grew ==> plan_start(cursor, read_plan(cursor, file))
                == Some((cursor.generation + 1, 0int))
        }),
{
    let bytes = encode_utf8(lossy_text(file.data@));
    assert(bytes.take(bytes.len() as int) =~= bytes);
}

/// After a reading the cursor stands behind the complete lines, with their fingerprint; a source
/// that was left alone keeps its place.
pub proof fn where_a_cursor_stands(
    file: SourceFile,
    cursor: SessionMemberCursor,
    generation: int,
    from: int,
)
    ensures
        ({
            let text = lossy_text(file.data@);
            let after = source_after(file, text, generation, from);
            &&& after.file_identity == file.identity@
            &&& after.generation == generation
            &&& after.byte_offset == byte_len(complete_part(text))
            &&& after.last_seen_size == file.data@.len()
            &&& after.mtime == file.mtime
            &&& after.start_byte_offset == from
            &&& after.prefix_hash == sha256(encode_utf8(complete_part(text)))
        }),
        ({
            let kept = kept_source(file, cursor);
            &&& kept.file_identity == file.identity@
            &&& kept.generation == cursor.generation
            &&& kept.byte_offset == cursor.byte_offset
            &&& kept.last_seen_size == file.data@.len()
            &&& kept.mtime == file.mtime
            &&& kept.start_byte_offset == cursor.byte_offset
            &&& kept.prefix_hash == cursor.prefix_hash@
        }),
        ({
            let whole = replayed_source(file, cursor);
            let never = cursor.source_file_identity@.len() == 0 && cursor.last_seen_size == 0;
            let replaced = file.identity@ != cursor.source_file_identity@ || file.data@.len()
                < cursor.last_seen_size;
            &&& whole.file_identity == file.identity@
            &&& whole.byte_offset == file.data@.len()
            &&& whole.last_seen_size == file.data@.len()
            &&& whole.mtime == file.mtime
            &&& whole.start_byte_offset == 0
            &&& whole.prefix_hash == sha256(file.data@)
            &&& never ==> whole.generation == 0
            &&& !never && replaced ==> whole.generation == cursor.generation + 1
            &&& !never && !replaced ==> whole.generation == cursor.generation
        }),
{
}

/// A reading brings what the complete lines from where it begins bring, with their counters and
/// the new cursor. What was known of the provider holds only for what is read on.
pub proof fn what_a_reading_brings<F: LineFormat>(
    f: F,
    file: SourceFile,
    cursor: SessionMemberCursor,
    c: StatsCapabilities,
    state: Provenance,
)
    ensures
        ({
            let text = lossy_text(file.data@);
            let ls = raw_lines_of(text);
            let end = byte_len(complete_part(text)) as int;
            let d = delta_of(f, file, cursor, c, state);
            match plan_start(cursor, read_plan(cursor, file)) {
                None => {
                    &&& d.messages.len() == 0
                    &&& d.stats is None
                    &&& d.source == Some(kept_source(file, cursor))
                    &&& d.next_active == state
                },
                Some(start) => {
                    let known = if start.1 == 0 {
                        Provenance { provider: None, model: None }
                    } else {
                        state
                    };
                    let p = progress(f, ls, start.1, end, known, ls.len() as int);
                    &&& d.messages == p.messages
                    &&& d.stats == stats_of(p.observation, start.1, c)
                    &&& d.source == Some(source_after(file, text, start.0, start.1))
                    &&& d.next_active == p.state
                },
            }
        }),
{
}

// ---------------------------------------------------------------------------
// Whose a file is
// ---------------------------------------------------------------------------

/// A field of a document holds a text.
pub open spec fn is_of_type(v: Tree, name: Seq<char>) -> bool {
    v.field("type"@) == Some(Tree::Text(name))
}

/// A line of Codex: an ordinal, a payload and a type.
pub open spec fn codex_writes(v: Tree) -> bool {
    &&& v.field("ordinal"@) is Some
    &&& v.field("type"@) is Some
    &&& v.field("payload"@) matches Some(p) && p is Object
}

/// A line that only Qoder writes.
pub open spec fn qoder_writes(v: Tree) -> bool {
    ||| is_of_type(v, "workspace-directories"@)
    ||| is_of_type(v, "runtime-config"@)
    ||| is_of_type(v, "worktree-state"@)
    ||| is_of_type(v, "active-leaf"@)
    ||| is_of_type(v, "last-prompt"@)
}

/// A link of the chain of events that `claude_code` writes.
pub open spec fn claude_writes(v: Tree) -> bool {
    &&& v.field("sessionId"@) is Some
    &&& v.field("parentUuid"@) is Some || v.field("uuid"@) is Some
}

/// A line of WorkBuddy.
pub open spec fn workbuddy_writes(v: Tree) -> bool {
    ||| is_of_type(v, "ai-title"@)
    ||| is_of_type(v, "file-history-snapshot"@)
    ||| {
        &&& is_of_type(v, "message"@)
        &&& v.field("role"@) is Some
        &&& v.field("content"@) matches Some(c) && c is List
    }
}

/// A line of Pi.
pub open spec fn pi_writes(v: Tree) -> bool {
    ||| is_of_type(v, "session"@) && v.field("id"@) is Some
    ||| {
        &&& v.field("parentId"@) is Some
        &&& v.field("provider"@) is Some || v.field("modelId"@) is Some || v.field(
            "thinkingLevel"@,
        ) is Some
    }
}

/// A line tells its writer by what only that writer writes, the most telling first; what is no
/// object tells none.
pub proof fn who_wrote_a_line(v: Tree)
    ensures
        !(v is Object) ==> writer_of(v) is None,
        v is Object ==> {
            &&& writer_of(v) == Some(Agent::Codex) <==> codex_writes(v)
            &&& writer_of(v) == Some(Agent::Qoder) <==> qoder_writes(v) && !codex_writes(v)
            &&& writer_of(v) == Some(Agent::ClaudeCode) <==> claude_writes(v) && !codex_writes(v)
                && !qoder_writes(v)
            &&& writer_of(v) == Some(Agent::WorkBuddy) <==> workbuddy_writes(v) && !codex_writes(v)
                && !qoder_writes(v) && !claude_writes(v)
            &&& writer_of(v) == Some(Agent::Pi) <==> pi_writes(v) && !codex_writes(v)
                && !qoder_writes(v) && !claude_writes(v) && !workbuddy_writes(v)
            &&& writer_of(v) is None <==> !codex_writes(v) && !qoder_writes(v) && !claude_writes(v)
                && !workbuddy_writes(v) && !pi_writes(v)
        },
{
}

/// The lines of a file are looked at from the first on, up to ten documents; a line that is none
/// is not counted.
pub proof fn how_far_a_file_is_looked_at(line: Seq<char>, rest: Seq<Seq<char>>, budget: int)
    ensures
        MAX_PARSE_LINES == 10,
        format_of(Seq::empty(), budget) is None,
        budget <= 0 ==> format_of(rest, budget) is None,
        budget > 0 ==> {
            let all = seq![line] + rest;
            let read = trimmed(line).len() > 0 && parsed(trimmed(line)) is Some;
            &&& !read ==> format_of(all, budget) == format_of(rest, budget)
            &&& read ==> (parsed(trimmed(line)) matches Some(v) ==> {
                &&& writer_of(v) is Some ==> format_of(all, budget) == writer_of(v)
                &&& writer_of(v) is None ==> format_of(all, budget) == format_of(rest, budget - 1)
            })
        },
{
    assert((seq![line] + rest).drop_first() =~= rest);
}

/// Each file that is a member is found, in order, unless it did not change; no other is.
pub proof fn one_more_file<F: MemberFinder>(
    f: F,
    files: Seq<FoundFile>,
    file: FoundFile,
    unchanged: Seq<Seq<char>>,
)
    ensures
        members_in(f, Seq::empty(), unchanged) == Seq::<Member>::empty(),
        unchanged.contains(file.path@) || f.member(file) is None ==> members_in(
            f,
            files.push(file),
            unchanged,
        ) == members_in(f, files, unchanged),
        !unchanged.contains(file.path@) ==> (f.member(file) matches Some(m) ==> members_in(
            f,
            files.push(file),
            unchanged,
        ) == members_in(f, files, unchanged).push(m)),
{
    assert(files.push(file).drop_last() =~= files);
}

/// Each file that is a session is found, in order, unless it did not change; no other is.
pub proof fn one_more_session<F: SessionFinder>(
    f: F,
    files: Seq<FoundFile>,
    file: FoundFile,
    unchanged: Seq<Seq<char>>,
)
    ensures
        sessions_in(f, Seq::empty(), unchanged) == Seq::<FoundSession>::empty(),
        unchanged.contains(file.path@) || f.session(file) is None ==> sessions_in(
            f,
            files.push(file),
            unchanged,
        ) == sessions_in(f, files, unchanged),
        !unchanged.contains(file.path@) ==> (f.session(file) matches Some(m) ==> sessions_in(
            f,
            files.push(file),
            unchanged,
        ) == sessions_in(f, files, unchanged).push(m)),
{
    assert(files.push(file).drop_last() =~= files);
}

// ---------------------------------------------------------------------------
// How an agent is started
// ---------------------------------------------------------------------------

/// Codex, `claude_code` and Pi can be started, continued and asked; no other agent can be, and each
/// says why.
pub proof fn who_can_be_started(agent: Agent)
    ensures
        ({
            let can = agent == Agent::Codex || agent == Agent::ClaudeCode || agent == Agent::Pi;
            &&& no_launch(agent) is None <==> can
            &&& no_resume(agent) is None <==> can
            &&& no_answer(agent) is None <==> can
        }),
        no_launch(Agent::Qoder) == Some("Qoder 没有可启动的 CLI，无法新建会话"@),
        no_resume(Agent::Qoder) == Some("Qoder 没有可启动的 CLI，无法恢复会话"@),
        no_answer(Agent::Qoder) == Some("Qoder 没有可启动的 CLI，无法一次性执行"@),
{
}

/// The context that a new session starts with is handed to Codex and Pi as it is, last; the other
/// program gets none.
pub proof fn how_a_session_is_started(opts: ExecOptions, context: Seq<char>)
    ensures
        new_args(Agent::Codex, opts, Some(context)) == codex::runtime(opts).push(context),
        new_args(Agent::Codex, opts, None) == codex::runtime(opts),
        new_args(Agent::Pi, opts, Some(context)) == pi::runtime(opts).push(context),
        new_args(Agent::Pi, opts, None) == pi::runtime(opts),
        new_args(Agent::ClaudeCode, opts, Some(context)) == claude::runtime(opts),
        new_args(Agent::ClaudeCode, opts, None) == claude::runtime(opts),
{
    assert(argument(Some(context)) =~= seq![context]);
    assert(codex::runtime(opts) + seq![context] =~= codex::runtime(opts).push(context));
    assert(pi::runtime(opts) + seq![context] =~= pi::runtime(opts).push(context));
    assert(argument(None) =~= Seq::<Seq<char>>::empty());
    assert(codex::runtime(opts) + Seq::<Seq<char>>::empty() =~= codex::runtime(opts));
    assert(pi::runtime(opts) + Seq::<Seq<char>>::empty() =~= pi::runtime(opts));
}

/// A session is continued under its own id, and an answer is asked for by the prompt itself, from
/// an agent that may change nothing.
pub proof fn how_a_session_is_continued(
    opts: ExecOptions,
    session: Seq<char>,
    context: Seq<char>,
    prompt: Seq<char>,
)
    ensures
        resume_args(Agent::Codex, opts, session, Some(context)) == seq!["resume"@]
            + codex::runtime(opts) + seq![session, context],
        resume_args(Agent::Codex, opts, session, None) == seq!["resume"@] + codex::runtime(opts)
            + seq![session],
        resume_args(Agent::Pi, opts, session, Some(context)) == pi::runtime(opts) + seq![
            "--session"@,
            session,
            context,
        ],
        resume_args(Agent::Pi, opts, session, None) == pi::runtime(opts) + seq![
            "--session"@,
            session,
        ],
        resume_args(Agent::ClaudeCode, opts, session, Some(context)) == seq!["--resume"@, session]
            + claude::runtime(opts),
        resume_args(Agent::ClaudeCode, opts, session, None) == seq!["--resume"@, session]
            + claude::runtime(opts),
        exec_args(Agent::Codex, opts, prompt) == seq![
            "exec"@,
            "-s"@,
            "read-only"@,
            "--skip-git-repo-check"@,
        ] + codex::runtime(opts) + seq![prompt],
        exec_args(Agent::Pi, opts, prompt) == seq!["-p"@, "--no-session"@, "--no-tools"@]
            + pi::runtime(opts) + seq![prompt],
        exec_args(Agent::ClaudeCode, opts, prompt) == seq!["-p"@, "--output-format"@, "text"@]
            + claude::runtime(opts) + seq![prompt],
{
    assert(argument(Some(context)) =~= seq![context]);
    assert(argument(None) =~= Seq::<Seq<char>>::empty());
    assert(resume_args(Agent::Codex, opts, session, Some(context)) =~= seq!["resume"@]
        + codex::runtime(opts) + seq![session, context]);
    assert(resume_args(Agent::Codex, opts, session, None) =~= seq!["resume"@] + codex::runtime(opts)
        + seq![session]);
    assert(resume_args(Agent::Pi, opts, session, Some(context)) =~= pi::runtime(opts) + seq![
        "--session"@,
        session,
        context,
    ]);
    assert(resume_args(Agent::Pi, opts, session, None) =~= pi::runtime(opts) + seq![
        "--session"@,
        session,
    ]);
}

// ---------------------------------------------------------------------------
// Each agent by its own format
// ---------------------------------------------------------------------------

/// Each format reads a line as what its own line says, and no line changes what is known of the
/// provider.
pub proof fn each_format_reads_its_own_lines(idx: int, v: Tree, state: Provenance, is_root: bool)
    ensures
        (pi::PiLines { is_root }).reading(idx, v, state).0 == pi::line_of(v, is_root),
        (pi::PiLines { is_root }).reading(idx, v, state).1 == state,
        (codex::CodexLines { is_root }).reading(idx, v, state).0 == codex::line_of(v, is_root),
        (codex::CodexLines { is_root }).reading(idx, v, state).1 == state,
        (claude::ClaudeLines { is_root }).reading(idx, v, state).0 == claude::line_of(v, is_root),
        (claude::ClaudeLines { is_root }).reading(idx, v, state).1 == state,
        (qoder::QoderLines { is_root }).reading(idx, v, state).0 == qoder::line_of(v, is_root),
        (qoder::QoderLines { is_root }).reading(idx, v, state).1 == state,
        (autoclaw::AutoClawLines { is_root }).reading(idx, v, state).0 == autoclaw::line_of(
            v,
            is_root,
        ),
        (autoclaw::AutoClawLines { is_root }).reading(idx, v, state).1 == state,
        workbuddy::WorkBuddyEvents.event(v) == workbuddy::event_of(v),
{
}

/// Each agent finds in a file what its own format finds there.
pub proof fn each_agent_finds_its_own_files(
    file: FoundFile,
    names: codex::ThreadNames,
    titles: qoder::SessionTitles,
)
    ensures
        pi::PiAdapter.member(file) == pi::discovered(file),
        claude::ClaudeAdapter.member(file) == claude::discovered(file),
        autoclaw::AutoClawAdapter.member(file) == autoclaw::discovered(file),
        workbuddy::WorkBuddyAdapter.session(file) == workbuddy::discovered(file),
        names.member(file) == codex::discovered(file, names.entries()),
        titles.member(file) is Some <==> qoder::discovered(file) is Some,
        qoder::discovered(file) matches Some(m) ==> (titles.member(file) matches Some(t) && {
            &&& qoder::subagent_file(file) ==> t == m
            &&& !qoder::subagent_file(file) ==> t.native_title == qoder::title_in(
                titles.rows@,
                m.source_member_id,
            )
            &&& t.agent == m.agent
            &&& t.source_member_id == m.source_member_id
            &&& t.kind == m.kind
            &&& t.parent_source_member_id == m.parent_source_member_id
            &&& t.root_hint == m.root_hint
            &&& t.source_kind == m.source_kind
            &&& t.source_path == m.source_path
            &&& t.cwd == m.cwd
            &&& t.started_at == m.started_at
            &&& t.last_activity_at == m.last_activity_at
            &&& t.first_user_text == m.first_user_text
            &&& t.first_agent_text == m.first_agent_text
            &&& t.metadata == m.metadata
        }),
{
}

/// A session of Qoder has the title of its first row, where the row tells that it is settled.
pub proof fn the_first_row_gives_the_title(
    row: qoder::TitleRow,
    rest: Seq<qoder::TitleRow>,
    id: Seq<char>,
)
    ensures
        qoder::title_in(Seq::empty(), id) is None,
        row.session_id@ != id ==> qoder::title_in(seq![row] + rest, id) == qoder::title_in(rest, id),
        row.session_id@ == id ==> {
            let title = qoder::title_in(seq![row] + rest, id);
            match row.extra_json {
                None => title == qoder::title_from_source(row.title@, None),
                Some(e) => match parsed(e@) {
                    Some(v) => title == qoder::title_from_source(
                        row.title@,
                        v.text_at("titleSource"@),
                    ),
                    None => title == qoder::title_from_source(row.title@, None),
                },
            }
        },
{
    let all = seq![row] + rest;
    assert(all.drop_first() =~= rest);
    assert(all.first() == row);
}

/// A name that the harness made up is no title, and neither is a blank one.
pub proof fn what_a_title_record_says(v: Tree, t: Seq<char>)
    ensures
        ({
            let made_up = v.inner("data"@, "source"@) matches Some(s) && s.field("kind"@) == Some(
                Tree::Text("fallback"@),
            );
            &&& v.inner("data"@, "title"@) == Some(Tree::Text(t)) && !made_up && !blank(t)
                ==> dsh::title_in(v) == Some(t)
            &&& made_up ==> dsh::title_in(v) is None
            &&& v.inner("data"@, "title"@) == Some(Tree::Text(t)) && blank(t) ==> dsh::title_in(
                v,
            ) is None
            &&& v.inner("data"@, "title"@) is None ==> dsh::title_in(v) is None
        }),
{
}

/// Transcripts of the harness stand in the `sessions` of a root that is not that directory itself.
pub proof fn where_transcripts_stand(root: crate::paths::FoundDir, dirs: Seq<Seq<char>>)
    ensures
        ({
            let below = crate::paths::child_of(root.path@, "sessions"@);
            &&& root.name@ == "sessions"@ ==> dsh::session_root(root, dirs) == root.path@
            &&& root.name@ != "sessions"@ && dirs.contains(below) ==> dsh::session_root(root, dirs)
                == below
            &&& !dirs.contains(below) ==> dsh::session_root(root, dirs) == root.path@
        }),
{
}

/// A file of this directory has a generation.
pub open spec fn has_generation(files: Seq<FoundFile>, i: int) -> bool {
    0 <= i < files.len() && dsh::generation_named(files[i].name@) is Some
}

/// The transcript of a directory is one of its files, and no other file is of a later generation.
pub proof fn the_transcript_is_the_newest(files: Seq<FoundFile>)
    ensures
        dsh::transcript_in(files) matches Some(f) ==> {
            &&& files.contains(f)
            &&& dsh::generation_named(f.name@) is Some
            &&& forall|j: int|
                #[trigger] has_generation(files, j) ==> dsh::generation_named(files[j].name@)->0
                    <= dsh::generation_named(f.name@)->0
        },
{
    let names = dsh::names_of(files);
    if dsh::transcript_in(files) is Some {
        let i = choose|i: int| dsh::is_newest(names, i);
        assert(names[i] == files[i].name@);
        assert forall|j: int| #[trigger] has_generation(files, j) implies dsh::generation_named(
            files[j].name@,
        )->0 <= dsh::generation_named(files[i].name@)->0 by {
            assert(names[j] == files[j].name@);
            if j != i {
                assert(match dsh::generation_named(names[j]) {
                    Some(g) => g < dsh::generation_named(names[i])->0 || (j > i && g
                        == dsh::generation_named(names[i])->0),
                    None => true,
                });
            }
        }
    }
}

/// Each directory brings the member that its transcript is, in order, unless that did not change.
pub proof fn one_more_directory(
    dirs: Seq<Vec<FoundFile>>,
    dir: Vec<FoundFile>,
    unchanged: Seq<Seq<char>>,
)
    ensures
        dsh::members_among(Seq::empty(), unchanged) == Seq::<Member>::empty(),
        ({
            let was = dsh::members_among(dirs, unchanged);
            let is = dsh::members_among(dirs.push(dir), unchanged);
            match dsh::transcript_in(dir@) {
                None => is == was,
                Some(file) => {
                    &&& unchanged.contains(file.path@) || dsh::discovered(file) is None ==> is
                        == was
                    &&& !unchanged.contains(file.path@) ==> (dsh::discovered(file) matches Some(m)
                        ==> is == was.push(m))
                },
            }
        }),
{
    assert(dirs.push(dir).drop_last() =~= dirs);
}

/// A message of the harness stands where its number says and was said when its record says; all
/// else stays.
pub proof fn placing_a_record_fills_in_only(m: Message, v: Tree)
    ensures
        ({
            let p = dsh::placed(m, v);
            &&& p.source_message_id == m.source_message_id
            &&& p.role == m.role
            &&& p.content == m.content
            &&& p.provider == m.provider
            &&& p.model == m.model
            &&& m.source_position.len() > 0 ==> p.source_position == m.source_position
            &&& m.source_position.len() == 0 ==> (m.source_message_id matches Some(id)
                ==> p.source_position == "seq:"@ + id)
            &&& m.ts is Some ==> p.ts == m.ts
            &&& m.ts is None ==> match v.field("time"@) {
                Some(Tree::Number(Some(ms))) => p.ts == rfc3339_of_millis(ms),
                _ => p.ts is None,
            }
        }),
{
}

/// What is kept of where a session of the harness came from is what its header says.
pub proof fn where_a_session_came_from(header: Tree)
    ensures
        dsh::origin_metadata(header) matches Tree::Object(kept) && {
            &&& kept.len() == 2
            &&& kept[0].0 == "delegation_depth"@
            &&& kept[1].0 == "origin"@
            &&& match header.field("delegationDepth"@) {
                Some(Tree::Number(Some(n))) => kept[0].1 == Tree::Number(Some(n)),
                _ => kept[0].1 == Tree::Null,
            }
            &&& match header.field("origin"@) {
                Some(Tree::Text(s)) => kept[1].1 == Tree::Text(s),
                _ => kept[1].1 == Tree::Null,
            }
        },
{
}

/// Beside what every member has, each agent keeps of a member only what its format tells: Codex
/// where a thread came from, AutoClaw its agent, Qoder the directory of a subagent, the harness
/// where a session came from; the others nothing.
pub proof fn what_else_is_kept_of_a_member(
    file: FoundFile,
    docs: Seq<(int, Tree)>,
    records: Seq<Tree>,
    facts: codex::RolloutFacts,
    id: Seq<char>,
    agent: Seq<char>,
)
    ensures
        pi::member_with(file, docs) matches Some(m) ==> m.metadata == Tree::Object(Seq::empty()),
        claude::member_with(file, docs).metadata == Tree::Object(Seq::empty()),
        qoder::root_with(file, docs).metadata == Tree::Object(Seq::empty()),
        codex::member_of(
            facts,
            file.name@,
            file.path@,
            None,
            id,
        ).metadata matches Tree::Object(kept) && kept.len() == 1 && kept[0].0 == "thread_source"@
            && (facts.thread_source is None ==> kept[0].1 == Tree::Null) && (
        facts.thread_source matches Some(t) ==> kept[0].1 == Tree::Text(t)),
        autoclaw::member_with(file, agent, docs) matches Some(m) ==> (
        m.metadata matches Tree::Object(kept) && kept.len() == 1 && kept[0] == (
            "agent_id"@,
            Tree::Text(agent),
        )),
        file.ancestors@.len() >= 2 ==> (qoder::child_with(file, docs) matches Some(m) ==> (
        m.metadata matches Tree::Object(kept) && kept.len() == 1 && kept[0] == (
            "session_dir"@,
            Tree::Text(file.ancestors@[1].path@),
        ))),
        dsh::TranscriptFacts::of(records).header matches Some(h) ==> (dsh::member_with(
            file,
            records,
        ) matches Some(m) && m.metadata == dsh::origin_metadata(h)),
{
}

proof fn some_name_is_the_newest(names: Seq<Seq<char>>)
    requires
        exists|i: int| 0 <= i < names.len() && dsh::generation_named(#[trigger] names[i]) is Some,
    ensures
        exists|i: int| #[trigger] dsh::is_newest(names, i),
    decreases names.len(),
{
    let front = names.drop_last();
    let n = names.len() - 1;
    assert forall|j: int| 0 <= j < n implies #[trigger] names[j] == front[j] by {}
    if exists|i: int| 0 <= i < front.len() && dsh::generation_named(#[trigger] front[i]) is Some {
        some_name_is_the_newest(front);
        let k = choose|k: int| #[trigger] dsh::is_newest(front, k);
        assert(front[k] == names[k]);
        let best = dsh::generation_named(names[k])->0;
        let replaces = match dsh::generation_named(names[n]) {
            Some(g) => g > best,
            None => false,
        };
        let w = if replaces {
            n
        } else {
            k
        };
        assert forall|j: int| 0 <= j < names.len() && j != w implies match dsh::generation_named(
            #[trigger] names[j],
        ) {
            Some(g) => g < dsh::generation_named(names[w])->0 || (j > w && g
                == dsh::generation_named(names[w])->0),
            None => true,
        } by {
            if j < n {
                assert(names[j] == front[j]);
                if j != k {
                    assert(match dsh::generation_named(front[j]) {
                        Some(g) => g < best || (j > k && g == best),
                        None => true,
                    });
                }
            }
        }
        assert(dsh::is_newest(names, w));
    } else {
        let i = choose|i: int|
            0 <= i < names.len() && dsh::generation_named(#[trigger] names[i]) is Some;
        if i < n {
            assert(front[i] == names[i]);
        }
        assert(i == n);
        assert forall|j: int| 0 <= j < names.len() && j != n implies match dsh::generation_named(
            #[trigger] names[j],
        ) {
            Some(g) => g < dsh::generation_named(names[n])->0 || (j > n && g
                == dsh::generation_named(names[n])->0),
            None => true,
        } by {
            assert(names[j] == front[j]);
            assert(dsh::generation_named(front[j]) is None);
        }
        assert(dsh::is_newest(names, n));
    }
}

/// A directory has a transcript where any of its files has a generation, and only there; of several
/// files of the same generation the first is it.
pub proof fn a_directory_has_its_transcript(files: Seq<FoundFile>, i: int, j: int)
    ensures
        dsh::transcript_in(files) is Some <==> exists|k: int| #[trigger] has_generation(files, k),
        dsh::is_newest(dsh::names_of(files), i) && has_generation(files, j) ==> {
            let a = dsh::generation_named(files[i].name@)->0;
            let b = dsh::generation_named(files[j].name@)->0;
            b < a || (b == a && i <= j)
        },
{
    let names = dsh::names_of(files);
    if exists|k: int| #[trigger] has_generation(files, k) {
        let k = choose|k: int| #[trigger] has_generation(files, k);
        assert(names[k] == files[k].name@);
        some_name_is_the_newest(names);
    }
    if dsh::transcript_in(files) is Some {
        let k = choose|k: int| dsh::is_newest(names, k);
        assert(names[k] == files[k].name@);
        assert(has_generation(files, k));
    }
    if dsh::is_newest(names, i) && has_generation(files, j) && j != i {
        assert(names[i] == files[i].name@);
        assert(names[j] == files[j].name@);
        assert(match dsh::generation_named(names[j]) {
            Some(g) => g < dsh::generation_named(names[i])->0 || (j > i && g
                == dsh::generation_named(names[i])->0),
            None => true,
        });
    }
}

} // verus!
