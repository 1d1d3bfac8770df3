//! Incremental reading: what a source holds beyond what was already consumed.
//!
//! A read is compared with the stored cursor. Where the consumed bytes are still the head of
//! the file, only the complete lines behind them are read. Anything else (a file that was
//! replaced, cut, rewritten in place or rewritten and grown) starts a new generation and is
//! read from its beginning.
use crate::adapters::{Line, ParsedLine};
use crate::bytes::{byte_len, byte_length, decode_lossy, lossy_text, sha256, sha256_hex};
use crate::domain::{
    copy_text, MemberObservation, MemberStatsDelta, Message, ParsedSessionMessage,
    SessionMemberCursor, SessionMemberStatsSnapshot, SourceCursorUpdate, SourceState, StatsUpdate,
};
use crate::json::{parse, parsed, Json, Tree};
use crate::text::{
    blank, chars_of, decimal, decimal_of, is_blank, raw_lines, raw_lines_of, same, string_of,
    strip_cr, texts, without_cr,
};
use crate::time::{ms_epoch_to_rfc3339, rfc3339_of_millis};
use vstd::prelude::*;
use vstd::slice::slice_subrange;
use vstd::utf8::encode_utf8;

verus! {

// ---------------------------------------------------------------------------
// Counters
// ---------------------------------------------------------------------------

/// The counters that a source format shows reliably.
#[derive(Clone, Copy, Debug, PartialEq, Eq, Structural)]
pub struct StatsCapabilities {
    pub tool_calls: bool,
    pub tool_errors: bool,
    pub compactions: bool,
    pub side_activity: bool,
}

impl StatsCapabilities {
    /// Tool calls and compactions.
    pub fn tool_and_compaction() -> (r: Self)
        ensures
            r == (StatsCapabilities {
                tool_calls: true,
                tool_errors: false,
                compactions: true,
                side_activity: false,
            }),
    {
        StatsCapabilities {
            tool_calls: true,
            tool_errors: false,
            compactions: true,
            side_activity: false,
        }
    }

    /// Compactions alone.
    pub fn compaction() -> (r: Self)
        ensures
            r == (StatsCapabilities {
                tool_calls: false,
                tool_errors: false,
                compactions: true,
                side_activity: false,
            }),
    {
        StatsCapabilities {
            tool_calls: false,
            tool_errors: false,
            compactions: true,
            side_activity: false,
        }
    }

    /// Tool calls and side activity.
    pub fn tool_and_side_activity() -> (r: Self)
        ensures
            r == (StatsCapabilities {
                tool_calls: true,
                tool_errors: false,
                compactions: false,
                side_activity: true,
            }),
    {
        StatsCapabilities {
            tool_calls: true,
            tool_errors: false,
            compactions: false,
            side_activity: true,
        }
    }

    /// Tool calls, compactions and side activity.
    pub fn tool_compaction_and_side_activity() -> (r: Self)
        ensures
            r == (StatsCapabilities {
                tool_calls: true,
                tool_errors: false,
                compactions: true,
                side_activity: true,
            }),
    {
        StatsCapabilities {
            tool_calls: true,
            tool_errors: false,
            compactions: true,
            side_activity: true,
        }
    }

    /// Tool calls, tool errors and compactions.
    pub fn tool_calls_errors_and_compaction() -> (r: Self)
        ensures
            r == (StatsCapabilities {
                tool_calls: true,
                tool_errors: true,
                compactions: true,
                side_activity: false,
            }),
    {
        StatsCapabilities {
            tool_calls: true,
            tool_errors: true,
            compactions: true,
            side_activity: false,
        }
    }
}

/// A count that a full scan reports: nothing where the format does not show it.
pub open spec fn scanned(shown: bool, n: u64) -> Option<i64> {
    if shown {
        Some(n as i64)
    } else {
        None
    }
}

/// A count that an append reports: nothing where there is nothing to add.
pub open spec fn added(shown: bool, n: u64) -> Option<i64> {
    if shown && n > 0 {
        Some(n as i64)
    } else {
        None
    }
}

/// How a read that began at `start` changes the counters. A read from the beginning replaces
/// them; an append adds what it saw, and changes nothing when it saw nothing.
pub open spec fn stats_of(
    o: MemberObservation,
    start: int,
    c: StatsCapabilities,
) -> Option<StatsUpdate> {
    if start == 0 {
        Some(
            StatsUpdate::Snapshot(
                SessionMemberStatsSnapshot {
                    tool_call_count: scanned(c.tool_calls, o.tool_calls),
                    tool_error_count: scanned(c.tool_errors, o.tool_errors),
                    compaction_count: scanned(c.compactions, o.compactions),
                    side_activity_count: scanned(c.side_activity, o.side_activity),
                },
            ),
        )
    } else {
        let d = MemberStatsDelta {
            tool_call_count: added(c.tool_calls, o.tool_calls),
            tool_error_count: added(c.tool_errors, o.tool_errors),
            compaction_count: added(c.compactions, o.compactions),
            side_activity_count: added(c.side_activity, o.side_activity),
        };
        if d.tool_call_count is None && d.tool_error_count is None && d.compaction_count is None
            && d.side_activity_count is None {
            None
        } else {
            Some(StatsUpdate::Delta(d))
        }
    }
}

fn count_if(shown: bool, n: u64) -> (r: Option<i64>)
    ensures
        r == scanned(shown, n),
{
    if shown {
        Some(n as i64)
    } else {
        None
    }
}

/// How a read changes the counters of its member.
pub fn stats_update_from(
    observation: &MemberObservation,
    source: &SourceCursorUpdate,
    capabilities: StatsCapabilities,
) -> (r: Option<StatsUpdate>)
    ensures
        r == stats_of(*observation, source.start_byte_offset as int, capabilities),
{
    let o = observation;
    let c = capabilities;
    if source.start_byte_offset == 0 {
        return Some(
            StatsUpdate::Snapshot(
                SessionMemberStatsSnapshot {
                    tool_call_count: count_if(c.tool_calls, o.tool_calls),
                    tool_error_count: count_if(c.tool_errors, o.tool_errors),
                    compaction_count: count_if(c.compactions, o.compactions),
                    side_activity_count: count_if(c.side_activity, o.side_activity),
                },
            ),
        );
    }
    let empty: bool = (!c.tool_calls || o.tool_calls == 0) && (!c.tool_errors || o.tool_errors == 0)
        && (!c.compactions || o.compactions == 0) && (!c.side_activity || o.side_activity == 0);
    if empty {
        None
    } else {
        Some(
            StatsUpdate::Delta(
                MemberStatsDelta {
                    tool_call_count: count_if(c.tool_calls && o.tool_calls > 0, o.tool_calls),
                    tool_error_count: count_if(c.tool_errors && o.tool_errors > 0, o.tool_errors),
                    compaction_count: count_if(c.compactions && o.compactions > 0, o.compactions),
                    side_activity_count: count_if(
                        c.side_activity && o.side_activity > 0,
                        o.side_activity,
                    ),
                },
            ),
        )
    }
}

// ---------------------------------------------------------------------------
// Provenance
// ---------------------------------------------------------------------------

/// The provider and the model that the source has confirmed for the messages to come.
pub struct ProvenanceState {
    pub provider: Option<String>,
    pub model: Option<String>,
}

/// A provenance, as a mathematical value.
pub struct Provenance {
    pub provider: Option<Seq<char>>,
    pub model: Option<Seq<char>>,
}

impl DeepView for ProvenanceState {
    type V = Provenance;

    open spec fn deep_view(&self) -> Provenance {
        Provenance { provider: self.provider.deep_view(), model: self.model.deep_view() }
    }
}

impl Provenance {
    /// Nothing is confirmed.
    pub open spec fn unknown() -> Provenance {
        Provenance { provider: None, model: None }
    }
}

impl Default for ProvenanceState {
    fn default() -> (r: Self)
        ensures
            r.deep_view() == Provenance::unknown(),
    {
        ProvenanceState { provider: None, model: None }
    }
}

// ---------------------------------------------------------------------------
// Lines of a format
// ---------------------------------------------------------------------------

/// A format of one document per line: what each line contributes, given the provenance that
/// the lines before it established.
pub trait LineFormat {
    /// The contribution of line `idx`, and the provenance after it.
    spec fn reading(&self, idx: int, v: Tree, state: Provenance) -> (Option<Line>, Provenance);

    /// The contribution of line `idx`.
    fn read_line(&self, idx: usize, v: &Json, state: &mut ProvenanceState) -> (r: Option<
        ParsedLine,
    >)
        ensures
            r.deep_view() == self.reading(idx as int, v.tree(), old(state).deep_view()).0,
            final(state).deep_view() == self.reading(
                idx as int,
                v.tree(),
                old(state).deep_view(),
            ).1,
    ;
}

/// When a line says it was written: an RFC 3339 text, or epoch milliseconds.
pub open spec fn line_time(v: Tree) -> Option<Seq<char>> {
    match v.field("timestamp"@) {
        Some(Tree::Text(s)) => Some(s),
        Some(Tree::Number(Some(ms))) => rfc3339_of_millis(ms),
        _ => None,
    }
}

pub(crate) fn time_of_line(v: &Json) -> (r: Option<String>)
    ensures
        r.deep_view() == line_time(v.tree()),
{
    match v.get("timestamp") {
        Some(Json::Text(s)) => Some(s.clone()),
        Some(Json::Number(Some(ms))) => ms_epoch_to_rfc3339(*ms),
        _ => None,
    }
}

/// A message with its place and its time filled in where the format left them open.
pub open spec fn placed(m: Message, idx: int, time: Option<Seq<char>>) -> Message {
    Message {
        source_position: if m.source_position.len() == 0 {
            "line:"@ + decimal((idx + 1) as nat)
        } else {
            m.source_position
        },
        ts: if m.ts is None {
            time
        } else {
            m.ts
        },
        ..m
    }
}

/// What the lines read so far brought.
pub struct Progress {
    pub messages: Seq<Message>,
    pub observation: MemberObservation,
    pub state: Provenance,
}

impl Progress {
    /// Nothing read yet.
    pub open spec fn start(state: Provenance) -> Progress {
        Progress { messages: Seq::empty(), observation: MemberObservation::nothing(), state }
    }

    /// After a document that contributed `line`. A blank message is left out, its line's
    /// counts are not.
    pub open spec fn with(
        self,
        idx: int,
        v: Tree,
        line: Option<Line>,
        state: Provenance,
    ) -> Progress {
        match line {
            None => Progress { state, ..self },
            Some(l) => Progress {
                messages: match l.message {
                    Some(m) if !blank(m.content) => self.messages.push(
                        placed(m, idx, line_time(v)),
                    ),
                    _ => self.messages,
                },
                observation: self.observation.plus(l.observation),
                state,
            },
        }
    }

    /// After line `idx`, which is passed over when it is blank or no document.
    pub open spec fn after<F: LineFormat>(self, f: F, idx: int, line: Seq<char>) -> Progress {
        if blank(line) {
            self
        } else {
            match parsed(line) {
                None => self,
                Some(v) => {
                    let r = f.reading(idx, v, self.state);
                    self.with(idx, v, r.0, r.1)
                },
            }
        }
    }
}

/// Where line `i` begins: behind the lines before it, each with the one byte of its `\n`.
pub open spec fn line_start(ls: Seq<Seq<char>>, i: int) -> int
    decreases i,
{
    if i <= 0 {
        0
    } else {
        line_start(ls, i - 1) + byte_len(ls[i - 1]) + 1
    }
}

/// What the first `n` lines bring, reading those that begin at `from` or later and before
/// `end`. The lines are those of the text as they stand; a carriage return at the end of one is
/// not part of what it says.
pub open spec fn progress<F: LineFormat>(
    f: F,
    ls: Seq<Seq<char>>,
    from: int,
    end: int,
    state: Provenance,
    n: int,
) -> Progress
    decreases n,
{
    if n <= 0 {
        Progress::start(state)
    } else {
        let before = progress(f, ls, from, end, state, n - 1);
        if line_start(ls, n - 1) < from || line_start(ls, n - 1) >= end {
            before
        } else {
            before.after(f, n - 1, without_cr(ls[n - 1]))
        }
    }
}

// ---------------------------------------------------------------------------
// Classification of a read
// ---------------------------------------------------------------------------

/// A source as it was found: the identity of the file, its modification time in nanoseconds,
/// its bytes.
pub struct SourceFile {
    pub identity: String,
    pub mtime: Option<i64>,
    pub data: Vec<u8>,
}

/// Two modification times that are more than a microsecond apart, or one that is missing.
pub open spec fn mtime_differs(a: Option<i64>, b: Option<i64>) -> bool {
    match (a, b) {
        (Some(x), Some(y)) => x - y > 1000 || y - x > 1000,
        (None, None) => false,
        _ => true,
    }
}

/// What a read has to do.
pub enum ReadPlan {
    /// Nothing changed since the cursor was written.
    Unchanged,
    /// Read what lies behind the consumed bytes.
    Append { from: int },
    /// Read everything, as the given generation.
    Rescan { generation: int },
}

/// The consumed bytes are still the head of the text.
pub open spec fn head_kept(cursor: SessionMemberCursor, size: int, text: Seq<char>) -> bool {
    let bytes = encode_utf8(text);
    let upto = if cursor.byte_offset <= bytes.len() {
        cursor.byte_offset as int
    } else {
        bytes.len() as int
    };
    &&& cursor.prefix_hash@.len() > 0
    &&& cursor.byte_offset <= size
    &&& sha256(bytes.take(upto)) == cursor.prefix_hash@
}

/// What a read of `file` has to do, given how far it was consumed.
pub open spec fn read_plan(cursor: SessionMemberCursor, file: SourceFile) -> ReadPlan {
    let size = file.data@.len();
    if cursor.fresh() {
        ReadPlan::Rescan { generation: 0 }
    } else if file.identity@ != cursor.source_file_identity@ {
        ReadPlan::Rescan { generation: cursor.generation + 1 }
    } else if size < cursor.last_seen_size {
        ReadPlan::Rescan { generation: cursor.generation + 1 }
    } else if size == cursor.last_seen_size {
        if mtime_differs(cursor.mtime, file.mtime) {
            ReadPlan::Rescan { generation: cursor.generation + 1 }
        } else {
            ReadPlan::Unchanged
        }
    } else if head_kept(cursor, size as int, lossy_text(file.data@)) {
        ReadPlan::Append { from: cursor.byte_offset as int }
    } else {
        ReadPlan::Rescan { generation: cursor.generation + 1 }
    }
}

/// The part of a text that consists of complete lines.
pub open spec fn complete_part(s: Seq<char>) -> Seq<char>
    decreases s.len(),
{
    if s.len() == 0 || s.last() == '\n' {
        s
    } else {
        complete_part(s.drop_last())
    }
}

// ---------------------------------------------------------------------------
// The read
// ---------------------------------------------------------------------------

/// What one read of a member brings.
pub struct MemberReadDelta {
    pub messages: Vec<ParsedSessionMessage>,
    pub stats: Option<StatsUpdate>,
    pub source: Option<SourceCursorUpdate>,
    pub next_active_provider: Option<String>,
    pub next_active_model: Option<String>,
}

/// What one read of a member brings, as a mathematical value.
pub struct Delta {
    pub messages: Seq<Message>,
    pub stats: Option<StatsUpdate>,
    pub source: Option<SourceState>,
    pub next_active: Provenance,
}

impl DeepView for MemberReadDelta {
    type V = Delta;

    open spec fn deep_view(&self) -> Delta {
        Delta {
            messages: self.messages.deep_view(),
            stats: self.stats,
            source: self.source.deep_view(),
            next_active: Provenance {
                provider: self.next_active_provider.deep_view(),
                model: self.next_active_model.deep_view(),
            },
        }
    }
}

/// What reading the complete lines of `text` that begin at `from` or later brings.
pub open spec fn read_lines<F: LineFormat>(
    f: F,
    text: Seq<char>,
    from: int,
    state: Provenance,
) -> Progress {
    let ls = raw_lines_of(text);
    progress(f, ls, from, byte_len(complete_part(text)) as int, state, ls.len() as int)
}

/// The state of a source whose complete lines were read from `from` on.
pub open spec fn source_after(
    file: SourceFile,
    text: Seq<char>,
    generation: int,
    from: int,
) -> SourceState {
    SourceState {
        file_identity: file.identity@,
        generation,
        byte_offset: byte_len(complete_part(text)) as int,
        last_seen_size: file.data@.len() as int,
        mtime: file.mtime,
        start_byte_offset: from,
        prefix_hash: sha256(encode_utf8(complete_part(text))),
    }
}

/// What a read of `file` brings. A provenance that was earned under another layout of the file
/// does not govern a read from the beginning.
pub open spec fn delta_of<F: LineFormat>(
    f: F,
    file: SourceFile,
    cursor: SessionMemberCursor,
    capabilities: StatsCapabilities,
    state: Provenance,
) -> Delta {
    let text = lossy_text(file.data@);
    match read_plan(cursor, file) {
        ReadPlan::Unchanged => Delta {
            messages: Seq::empty(),
            stats: None,
            source: Some(kept_source(file, cursor)),
            next_active: state,
        },
        ReadPlan::Append { from } => scan(
            f,
            file,
            text,
            cursor.generation as int,
            from,
            capabilities,
            if from == 0 {
                Provenance::unknown()
            } else {
                state
            },
        ),
        ReadPlan::Rescan { generation } => scan(
            f,
            file,
            text,
            generation,
            0,
            capabilities,
            Provenance::unknown(),
        ),
    }
}

/// What reading the lines from `from` on brings, with the counters and the new cursor.
pub open spec fn scan<F: LineFormat>(
    f: F,
    file: SourceFile,
    text: Seq<char>,
    generation: int,
    from: int,
    capabilities: StatsCapabilities,
    state: Provenance,
) -> Delta {
    let p = read_lines(f, text, from, state);
    Delta {
        messages: p.messages,
        stats: stats_of(p.observation, from, capabilities),
        source: Some(source_after(file, text, generation, from)),
        next_active: p.state,
    }
}

/// How long the part of complete lines is, in characters.
fn complete_chars(v: &Vec<char>) -> (n: usize)
    ensures
        n <= v@.len(),
        complete_part(v@) == v@.take(n as int),
{
    let mut n: usize = v.len();
    assert(v@.take(n as int) =~= v@);
    while n > 0 && v[n - 1] != '\n'
        invariant
            n <= v@.len(),
            complete_part(v@) == complete_part(v@.take(n as int)),
        decreases n,
    {
        assert(v@.take(n as int).drop_last() =~= v@.take(n - 1));
        n = n - 1;
    }
    n
}

/// Whether the modification time tells that the file changed.
fn mtime_changed(a: Option<i64>, b: Option<i64>) -> (r: bool)
    ensures
        r == mtime_differs(a, b),
{
    match (a, b) {
        (Some(x), Some(y)) => {
            let d: i128 = x as i128 - y as i128;
            d > 1000 || d < -1000
        },
        (None, None) => false,
        _ => true,
    }
}

/// Whether the consumed bytes are still the head of the text.
fn head_is_kept(cursor: &SessionMemberCursor, size: usize, text: &str) -> (r: bool)
    ensures
        r == head_kept(*cursor, size as int, text@),
{
    let bytes = text.as_bytes();
    let upto: usize = if cursor.byte_offset <= bytes.len() as u64 {
        cursor.byte_offset as usize
    } else {
        bytes.len()
    };
    assert(bytes@.subrange(0, upto as int) =~= bytes@.take(upto as int));
    !cursor.prefix_hash.as_str().is_empty() && cursor.byte_offset <= size as u64 && same(
        sha256_hex(slice_subrange(bytes, 0, upto)).as_str(),
        cursor.prefix_hash.as_str(),
    )
}

/// The lines that begin at `from` or later and before `end`, read one after the other.
fn read_all<F: LineFormat>(
    f: &F,
    ls: &Vec<String>,
    from: usize,
    end: usize,
    state: &mut ProvenanceState,
) -> (r: (Vec<ParsedSessionMessage>, MemberObservation))
    ensures
        ({
            let p = progress(
                *f,
                texts(ls@),
                from as int,
                end as int,
                old(state).deep_view(),
                ls@.len() as int,
            );
            &&& r.0.deep_view() == p.messages
            &&& r.1 == p.observation
            &&& final(state).deep_view() == p.state
        }),
{
    let ghost all = texts(ls@);
    let ghost first = state.deep_view();
    let mut messages: Vec<ParsedSessionMessage> = Vec::new();
    let mut observation = MemberObservation::default();
    let mut offset: u128 = 0;
    let mut i: usize = 0;
    assert(messages.deep_view() =~= Seq::<Message>::empty());
    while i < ls.len()
        invariant
            i <= ls@.len(),
            all == texts(ls@),
            offset == line_start(all, i as int),
            offset <= i * 0x1_0000_0000_0000_0000,
            messages.deep_view() == progress(
                *f,
                all,
                from as int,
                end as int,
                first,
                i as int,
            ).messages,
            observation == progress(
                *f,
                all,
                from as int,
                end as int,
                first,
                i as int,
            ).observation,
            state.deep_view() == progress(
                *f,
                all,
                from as int,
                end as int,
                first,
                i as int,
            ).state,
        decreases ls@.len() - i,
    {
        let raw: &str = ls[i].as_str();
        assert(all[i as int] == raw@);
        let begin: u128 = offset;
        let idx: usize = i;
        let len: usize = byte_length(raw);
        offset = offset + len as u128 + 1;
        i = i + 1;
        if begin < from as u128 || begin >= end as u128 {
            continue;
        }
        let line = strip_cr(raw);
        if is_blank(line.as_str()) {
            continue;
        }
        match parse(line.as_str()) {
            None => {},
            Some(v) => {
                match f.read_line(idx, &v, state) {
                    None => {},
                    Some(p) => {
                        observation.add(&p.observation);
                        match p.message {
                            None => {},
                            Some(m) => {
                                if !is_blank(m.content.as_str()) {
                                    let ghost before = messages.deep_view();
                                    let placed_message = place(m, idx, &v);
                                    messages.push(placed_message);
                                    assert(messages.deep_view() =~= before.push(
                                        placed_message.deep_view(),
                                    ));
                                }
                            },
                        }
                    },
                }
            },
        }
    }
    (messages, observation)
}

/// A message with its place and its time filled in where the format left them open.
fn place(m: ParsedSessionMessage, idx: usize, v: &Json) -> (r: ParsedSessionMessage)
    requires
        idx < usize::MAX,
    ensures
        r.deep_view() == placed(m.deep_view(), idx as int, line_time(v.tree())),
{
    let mut m = m;
    if m.source_position.as_str().is_empty() {
        let mut position: String = "line:".to_owned();
        let number: String = decimal_of((idx + 1) as u64);
        position.append(number.as_str());
        m.source_position = position;
    }
    if m.ts.is_none() {
        m.ts = time_of_line(v);
    }
    m
}

/// Where a read begins.
pub(crate) enum ReadStart {
    Unchanged,
    From { generation: i64, from: usize },
}

/// The generation of a planned read, and where it begins.
pub open spec fn plan_start(cursor: SessionMemberCursor, plan: ReadPlan) -> Option<(int, int)> {
    match plan {
        ReadPlan::Unchanged => None,
        ReadPlan::Append { from } => Some((cursor.generation as int, from)),
        ReadPlan::Rescan { generation } => Some((generation, 0)),
    }
}

/// Where a read of `file` begins, given how far it was consumed.
pub(crate) fn start_of_read(file: &SourceFile, cursor: &SessionMemberCursor, text: &str) -> (r:
    ReadStart)
    requires
        cursor.generation < i64::MAX,
        text@ == lossy_text(file.data@),
    ensures
        match r {
            ReadStart::Unchanged => plan_start(*cursor, read_plan(*cursor, *file)) is None,
            ReadStart::From { generation, from } => plan_start(*cursor, read_plan(*cursor, *file))
                == Some((generation as int, from as int)),
        },
{
    let size: usize = file.data.len();
    let first_ever: bool = cursor.source_file_identity.as_str().is_empty() && cursor.last_seen_size
        == 0;
    if first_ever {
        return ReadStart::From { generation: 0, from: 0 };
    }
    let rescan = ReadStart::From { generation: cursor.generation + 1, from: 0 };
    if !same(file.identity.as_str(), cursor.source_file_identity.as_str()) || (size as u64)
        < cursor.last_seen_size {
        rescan
    } else if size as u64 == cursor.last_seen_size {
        if mtime_changed(cursor.mtime, file.mtime) {
            rescan
        } else {
            ReadStart::Unchanged
        }
    } else if head_is_kept(cursor, size, text) {
        ReadStart::From { generation: cursor.generation, from: cursor.byte_offset as usize }
    } else {
        rescan
    }
}

/// The state of a source that did not change: the cursor stays where it is.
pub open spec fn kept_source(file: SourceFile, cursor: SessionMemberCursor) -> SourceState {
    SourceState {
        file_identity: file.identity@,
        generation: cursor.generation as int,
        byte_offset: cursor.byte_offset as int,
        last_seen_size: file.data@.len() as int,
        mtime: file.mtime,
        start_byte_offset: cursor.byte_offset as int,
        prefix_hash: cursor.prefix_hash@,
    }
}

pub(crate) fn keep_source(file: &SourceFile, cursor: &SessionMemberCursor) -> (r:
    SourceCursorUpdate)
    ensures
        r.deep_view() == kept_source(*file, *cursor),
{
    SourceCursorUpdate {
        file_identity: file.identity.clone(),
        generation: cursor.generation,
        byte_offset: cursor.byte_offset,
        last_seen_size: file.data.len() as u64,
        mtime: file.mtime,
        start_byte_offset: cursor.byte_offset,
        prefix_hash: cursor.prefix_hash.clone(),
    }
}

/// The part of a text that consists of complete lines.
pub(crate) fn complete_text(text: &str) -> (r: String)
    ensures
        r@ == complete_part(text@),
{
    let v = chars_of(text);
    let n: usize = complete_chars(&v);
    assert(v@.subrange(0, n as int) =~= v@.take(n as int));
    string_of(&v, 0, n)
}

pub(crate) fn advance_source(
    file: &SourceFile,
    complete: &str,
    end: usize,
    generation: i64,
    from: usize,
) -> (r: SourceCursorUpdate)
    requires
        complete@ == complete_part(lossy_text(file.data@)),
        end == byte_len(complete@),
    ensures
        r.deep_view() == source_after(
            *file,
            lossy_text(file.data@),
            generation as int,
            from as int,
        ),
{
    SourceCursorUpdate {
        file_identity: file.identity.clone(),
        generation,
        byte_offset: end as u64,
        last_seen_size: file.data.len() as u64,
        mtime: file.mtime,
        start_byte_offset: from as u64,
        prefix_hash: sha256_hex(complete.as_bytes()),
    }
}

/// Reads what the source of a member holds beyond its cursor, for a format whose lines depend
/// on the provenance that earlier lines established. `state` comes in as the cursor left it and
/// goes out as the read left it.
pub fn read_jsonl_delta_stateful<F: LineFormat>(
    file: &SourceFile,
    cursor: &SessionMemberCursor,
    capabilities: StatsCapabilities,
    state: &mut ProvenanceState,
    f: &F,
) -> (r: MemberReadDelta)
    requires
        cursor.generation < i64::MAX,
    ensures
        r.deep_view() == delta_of(*f, *file, *cursor, capabilities, old(state).deep_view()),
        final(state).deep_view() == r.deep_view().next_active,
{
    let text = decode_lossy(file.data.as_slice());
    match start_of_read(file, cursor, text.as_str()) {
        ReadStart::Unchanged => {
            let messages: Vec<ParsedSessionMessage> = Vec::new();
            assert(messages.deep_view() =~= Seq::<Message>::empty());
            MemberReadDelta {
                messages,
                stats: None,
                source: Some(keep_source(file, cursor)),
                next_active_provider: copy_text(&state.provider),
                next_active_model: copy_text(&state.model),
            }
        },
        ReadStart::From { generation, from } => {
            if from == 0 {
                *state = ProvenanceState::default();
            }
            let complete = complete_text(text.as_str());
            let end: usize = byte_length(complete.as_str());
            let ls = raw_lines(text.as_str());
            let (messages, observation) = read_all(f, &ls, from, end, state);
            let source = advance_source(file, complete.as_str(), end, generation, from);
            MemberReadDelta {
                stats: stats_update_from(&observation, &source, capabilities),
                messages,
                source: Some(source),
                next_active_provider: copy_text(&state.provider),
                next_active_model: copy_text(&state.model),
            }
        },
    }
}

/// Reads what the source of a member holds beyond its cursor.
pub fn read_jsonl_delta<F: LineFormat>(
    file: &SourceFile,
    cursor: &SessionMemberCursor,
    capabilities: StatsCapabilities,
    f: &F,
) -> (r: MemberReadDelta)
    requires
        cursor.generation < i64::MAX,
    ensures
        r.deep_view() == delta_of(*f, *file, *cursor, capabilities, Provenance::unknown()),
{
    let mut state = ProvenanceState::default();
    read_jsonl_delta_stateful(file, cursor, capabilities, &mut state, f)
}

// ---------------------------------------------------------------------------
// Sources that are read whole each time
// ---------------------------------------------------------------------------

/// The state of a source that is read whole each time, in the coordinates of the file itself. A
/// file that was replaced or cut is a new generation; one that grew is not.
pub open spec fn replayed_source(file: SourceFile, cursor: SessionMemberCursor) -> SourceState {
    let size = file.data@.len() as int;
    SourceState {
        file_identity: file.identity@,
        generation: if cursor.fresh() {
            0
        } else if file.identity@ != cursor.source_file_identity@ || size < cursor.last_seen_size {
            cursor.generation + 1
        } else {
            cursor.generation as int
        },
        byte_offset: size,
        last_seen_size: size,
        mtime: file.mtime,
        start_byte_offset: 0,
        prefix_hash: sha256(file.data@),
    }
}

/// The cursor of a source that is read whole each time.
pub fn replay_cursor_update(file: &SourceFile, cursor: &SessionMemberCursor) -> (r:
    SourceCursorUpdate)
    requires
        cursor.generation < i64::MAX,
    ensures
        r.deep_view() == replayed_source(*file, *cursor),
{
    let size: u64 = file.data.len() as u64;
    let first_ever: bool = cursor.source_file_identity.as_str().is_empty() && cursor.last_seen_size
        == 0;
    let generation: i64 = if first_ever {
        0
    } else if !same(file.identity.as_str(), cursor.source_file_identity.as_str()) || size
        < cursor.last_seen_size {
        cursor.generation + 1
    } else {
        cursor.generation
    };
    SourceCursorUpdate {
        file_identity: file.identity.clone(),
        generation,
        byte_offset: size,
        last_seen_size: size,
        mtime: file.mtime,
        start_byte_offset: 0,
        prefix_hash: sha256_hex(file.data.as_slice()),
    }
}

} // verus!
