//! Sessions and events: the shape of the sources that know no members.
use crate::adapters::reader::{
    advance_source, complete_part, complete_text, keep_source, kept_source, line_start, line_time,
    read_plan, source_after, start_of_read, time_of_line, ReadPlan, ReadStart, SourceFile,
};
use crate::bytes::{byte_len, byte_length, decode_lossy, lossy_text};
use crate::domain::{Agent, SessionMemberCursor, SourceCursorUpdate, SourceState};
use crate::json::{named_trees, object_tree, parse, parsed, Json, Tree};
use crate::text::{
    blank, decimal, decimal_of, is_blank, raw_lines, raw_lines_of, strip_cr, texts, without_cr,
};
use vstd::prelude::*;

verus! {

/// Something that happened in a session.
pub struct ParsedEvent {
    pub source_event_id: Option<String>,
    pub source_position: String,
    pub ts: Option<String>,
    pub kind: String,
    pub text: Option<String>,
    pub metadata: Json,
}

/// Something that happened in a session, as a mathematical value.
pub struct Event {
    pub source_event_id: Option<Seq<char>>,
    pub source_position: Seq<char>,
    pub ts: Option<Seq<char>>,
    pub kind: Seq<char>,
    pub text: Option<Seq<char>>,
    pub metadata: Tree,
}

impl DeepView for ParsedEvent {
    type V = Event;

    open spec fn deep_view(&self) -> Event {
        Event {
            source_event_id: self.source_event_id.deep_view(),
            source_position: self.source_position@,
            ts: self.ts.deep_view(),
            kind: self.kind@,
            text: self.text.deep_view(),
            metadata: self.metadata.tree(),
        }
    }
}

/// Which agent an event comes from, and what it was in the source.
pub open spec fn event_metadata(agent: Seq<char>, kind: Seq<char>) -> Tree {
    Tree::Object(seq![("agent"@, Tree::Text(agent)), ("type"@, Tree::Text(kind))])
}

/// Which agent an event comes from, and what it was in the source.
pub(crate) fn metadata_of_event(agent: &str, kind: &str) -> (r: Json)
    ensures
        r.tree() == event_metadata(agent@, kind@),
{
    broadcast use object_tree;

    let mut fields: Vec<(String, Json)> = Vec::new();
    fields.push(("agent".to_owned(), Json::Text(agent.to_owned())));
    fields.push(("type".to_owned(), Json::Text(kind.to_owned())));
    assert(named_trees(fields@) =~= seq![
        ("agent"@, Tree::Text(agent@)),
        ("type"@, Tree::Text(kind@)),
    ]);
    Json::Object(fields)
}

/// A session as discovery found it.
pub struct DiscoveredSession {
    pub agent: Agent,
    pub agent_session_id: String,
    pub path: String,
    pub cwd: Option<String>,
    pub started_at: Option<String>,
    pub last_activity_at: Option<String>,
    pub native_title: Option<String>,
    pub first_user_text: Option<String>,
    pub first_agent_text: Option<String>,
    pub parent_agent_session_id: Option<String>,
}

/// A session as discovery found it, as a mathematical value.
pub struct FoundSession {
    pub agent: Agent,
    pub agent_session_id: Seq<char>,
    pub path: Seq<char>,
    pub cwd: Option<Seq<char>>,
    pub started_at: Option<Seq<char>>,
    pub last_activity_at: Option<Seq<char>>,
    pub native_title: Option<Seq<char>>,
    pub first_user_text: Option<Seq<char>>,
    pub first_agent_text: Option<Seq<char>>,
    pub parent_agent_session_id: Option<Seq<char>>,
}

impl DeepView for DiscoveredSession {
    type V = FoundSession;

    open spec fn deep_view(&self) -> FoundSession {
        FoundSession {
            agent: self.agent,
            agent_session_id: self.agent_session_id@,
            path: self.path@,
            cwd: self.cwd.deep_view(),
            started_at: self.started_at.deep_view(),
            last_activity_at: self.last_activity_at.deep_view(),
            native_title: self.native_title.deep_view(),
            first_user_text: self.first_user_text.deep_view(),
            first_agent_text: self.first_agent_text.deep_view(),
            parent_agent_session_id: self.parent_agent_session_id.deep_view(),
        }
    }
}

/// What one read of a session brings.
pub struct ReadDelta {
    pub events: Vec<ParsedEvent>,
    pub source: Option<SourceCursorUpdate>,
}

/// What one read of a session brings, as a mathematical value.
pub struct EventDelta {
    pub events: Seq<Event>,
    pub source: Option<SourceState>,
}

impl DeepView for ReadDelta {
    type V = EventDelta;

    open spec fn deep_view(&self) -> EventDelta {
        EventDelta { events: self.events.deep_view(), source: self.source.deep_view() }
    }
}

/// A format of one document per line, each an event at most.
pub trait EventFormat {
    /// The event of a line.
    spec fn event(&self, v: Tree) -> Option<Event>;

    /// The event of a line.
    fn read_event(&self, v: &Json) -> (r: Option<ParsedEvent>)
        ensures
            r.deep_view() == self.event(v.tree()),
    ;
}

/// An event with its place and its time filled in where the format left them open.
pub open spec fn placed_event(e: Event, idx: int, time: Option<Seq<char>>) -> Event {
    Event {
        source_position: if e.source_position.len() == 0 {
            "line:"@ + decimal((idx + 1) as nat)
        } else {
            e.source_position
        },
        ts: if e.ts is None {
            time
        } else {
            e.ts
        },
        ..e
    }
}

/// The events of the first `n` lines, reading those that begin at `from` or later and before
/// `end`. A carriage return at the end of a line is not part of what it says.
pub open spec fn events_of_lines<F: EventFormat>(
    f: F,
    ls: Seq<Seq<char>>,
    from: int,
    end: int,
    n: int,
) -> Seq<Event>
    decreases n,
{
    if n <= 0 {
        Seq::empty()
    } else {
        let before = events_of_lines(f, ls, from, end, n - 1);
        let line = without_cr(ls[n - 1]);
        if line_start(ls, n - 1) < from || line_start(ls, n - 1) >= end || blank(line) {
            before
        } else {
            match parsed(line) {
                None => before,
                Some(v) => match f.event(v) {
                    None => before,
                    Some(e) => before.push(placed_event(e, n - 1, line_time(v))),
                },
            }
        }
    }
}

/// The events of the complete lines of a text that begin at `from` or later.
pub open spec fn read_events<F: EventFormat>(f: F, text: Seq<char>, from: int) -> Seq<Event> {
    let ls = raw_lines_of(text);
    events_of_lines(f, ls, from, byte_len(complete_part(text)) as int, ls.len() as int)
}

/// What a read of `file` brings.
pub open spec fn event_delta_of<F: EventFormat>(
    f: F,
    file: SourceFile,
    cursor: SessionMemberCursor,
) -> EventDelta {
    let text = lossy_text(file.data@);
    match read_plan(cursor, file) {
        ReadPlan::Unchanged => EventDelta {
            events: Seq::empty(),
            source: Some(kept_source(file, cursor)),
        },
        ReadPlan::Append { from } => EventDelta {
            events: read_events(f, text, from),
            source: Some(source_after(file, text, cursor.generation as int, from)),
        },
        ReadPlan::Rescan { generation } => EventDelta {
            events: read_events(f, text, 0),
            source: Some(source_after(file, text, generation, 0)),
        },
    }
}

fn place_event(e: ParsedEvent, idx: usize, v: &Json) -> (r: ParsedEvent)
    requires
        idx < usize::MAX,
    ensures
        r.deep_view() == placed_event(e.deep_view(), idx as int, line_time(v.tree())),
{
    let mut e = e;
    if e.source_position.as_str().is_empty() {
        let mut position: String = "line:".to_owned();
        position.append(decimal_of((idx + 1) as u64).as_str());
        e.source_position = position;
    }
    if e.ts.is_none() {
        e.ts = time_of_line(v);
    }
    e
}

fn read_all_events<F: EventFormat>(f: &F, ls: &Vec<String>, from: usize, end: usize) -> (r: Vec<
    ParsedEvent,
>)
    ensures
        r.deep_view() == events_of_lines(
            *f,
            texts(ls@),
            from as int,
            end as int,
            ls@.len() as int,
        ),
{
    let ghost all = texts(ls@);
    let mut events: Vec<ParsedEvent> = Vec::new();
    let mut offset: u128 = 0;
    let mut i: usize = 0;
    assert(events.deep_view() =~= Seq::<Event>::empty());
    while i < ls.len()
        invariant
            i <= ls@.len(),
            all == texts(ls@),
            offset == line_start(all, i as int),
            offset <= i * 0x1_0000_0000_0000_0000,
            events.deep_view() == events_of_lines(*f, all, from as int, end as int, i as int),
        decreases ls@.len() - i,
    {
        let raw: &str = ls[i].as_str();
        assert(all[i as int] == raw@);
        let begin: u128 = offset;
        let idx: usize = i;
        let len: usize = byte_length(raw);
        offset = offset + len as u128 + 1;
        i = i + 1;
        if begin < from as u128 || begin >= end as u128 {
            continue;
        }
        let line = strip_cr(raw);
        if is_blank(line.as_str()) {
            continue;
        }
        match parse(line.as_str()) {
            None => {},
            Some(v) => match f.read_event(&v) {
                None => {},
                Some(e) => {
                    let ghost before = events.deep_view();
                    let e = place_event(e, idx, &v);
                    events.push(e);
                    assert(events.deep_view() =~= before.push(e.deep_view()));
                },
            },
        }
    }
    events
}

/// Reads what a source holds beyond its cursor.
pub fn read_event_delta<F: EventFormat>(
    file: &SourceFile,
    cursor: &SessionMemberCursor,
    f: &F,
) -> (r: ReadDelta)
    requires
        cursor.generation < i64::MAX,
    ensures
        r.deep_view() == event_delta_of(*f, *file, *cursor),
{
    let text = decode_lossy(file.data.as_slice());
    match start_of_read(file, cursor, text.as_str()) {
        ReadStart::Unchanged => {
            let events: Vec<ParsedEvent> = Vec::new();
            assert(events.deep_view() =~= Seq::<Event>::empty());
            ReadDelta { events, source: Some(keep_source(file, cursor)) }
        },
        ReadStart::From { generation, from } => {
            let complete = complete_text(text.as_str());
            let end: usize = byte_length(complete.as_str());
            let ls = raw_lines(text.as_str());
            let events = read_all_events(f, &ls, from, end);
            ReadDelta {
                events,
                source: Some(advance_source(file, complete.as_str(), end, generation, from)),
            }
        },
    }
}

// ---------------------------------------------------------------------------
// Laws
// ---------------------------------------------------------------------------

/// Filling in the place and the time of an event leaves the rest as it was; what the format gave
/// stands.
pub proof fn placing_fills_in_only(e: Event, idx: int, time: Option<Seq<char>>)
    ensures
        ({
            let p = placed_event(e, idx, time);
            &&& p.source_event_id == e.source_event_id
            &&& p.kind == e.kind
            &&& p.text == e.text
            &&& p.metadata == e.metadata
            &&& e.source_position.len() > 0 ==> p.source_position == e.source_position
            &&& e.source_position.len() == 0 ==> p.source_position == "line:"@ + decimal(
                (idx + 1) as nat,
            )
            &&& e.ts is Some ==> p.ts == e.ts
            &&& e.ts is None ==> p.ts == time
        }),
{
}

/// Every line in reach contributes the event that its document is, in the order of the lines; no
/// other line contributes anything.
pub proof fn one_more_line<F: EventFormat>(f: F, ls: Seq<Seq<char>>, from: int, end: int, n: int)
    requires
        0 <= n < ls.len(),
    ensures
        ({
            let before = events_of_lines(f, ls, from, end, n);
            let after = events_of_lines(f, ls, from, end, n + 1);
            let line = without_cr(ls[n]);
            &&& line_start(ls, n) < from ==> after == before
            &&& line_start(ls, n) >= end ==> after == before
            &&& blank(line) ==> after == before
            &&& parsed(line) is None ==> after == before
            &&& parsed(line) matches Some(v) ==> {
                &&& f.event(v) is None ==> after == before
                &&& from <= line_start(ls, n) < end && !blank(line) ==> (f.event(v) matches Some(e)
                    ==> after == before.push(placed_event(e, n, line_time(v))))
            }
        }),
        events_of_lines(f, ls, from, end, 0) == Seq::<Event>::empty(),
{
}

/// A source that did not change brings nothing and keeps its place. One that grew is read from
/// where the reading stood, one that was replaced from its start.
pub proof fn a_read_goes_on_where_it_stood<F: EventFormat>(
    f: F,
    file: SourceFile,
    cursor: SessionMemberCursor,
)
    ensures
        ({
            let delta = event_delta_of(f, file, cursor);
            let text = lossy_text(file.data@);
            let ls = raw_lines_of(text);
            let end = byte_len(complete_part(text)) as int;
            match read_plan(cursor, file) {
                ReadPlan::Unchanged => delta.events.len() == 0 && delta.source == Some(
                    kept_source(file, cursor),
                ),
                ReadPlan::Append { from } => delta.events == events_of_lines(
                    f,
                    ls,
                    from,
                    end,
                    ls.len() as int,
                ) && delta.source == Some(
                    source_after(file, text, cursor.generation as int, from),
                ),
                ReadPlan::Rescan { generation } => delta.events == events_of_lines(
                    f,
                    ls,
                    0,
                    end,
                    ls.len() as int,
                ) && delta.source == Some(source_after(file, text, generation, 0)),
            }
        }),
{
}

} // verus!
