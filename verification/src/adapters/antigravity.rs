//! Antigravity: one database per conversation, `conversations/<id>.db`.
//!
//! The steps of a conversation are blobs in the wire format of protocol buffers, without a
//! schema. Of the steps, user turns and agent turns hold conversation; tool calls and errors are
//! counted. A conversation with a parent is a child. Nothing is launched.
use crate::adapters::content::{empty_object, first_of, first_text};
use crate::adapters::reader::{
    replay_cursor_update, replayed_source, stats_of, stats_update_from, Delta, MemberReadDelta,
    Provenance, SourceFile, StatsCapabilities,
};
use crate::adapters::{
    counted, message_of, AgentCommand, DiscoveredMember, DiscoveredMemberKind, Line, Member,
    ParsedLine,
};
use crate::bytes::decode_strict;
use crate::domain::{
    copy_text, Agent, MemberObservation, Message, ParsedSessionMessage, SessionMemberCursor,
    SessionMemberRelation, SessionMessageRole,
};
use crate::error::{other, AppError, Fault};
use crate::json::{parse, parsed, trees, Json, Tree};
use crate::paths::{
    child_of, child_path, extension, extension_of, file_stem, named_with, stem_of, with_extension,
    FoundDir, FoundFile,
};
use crate::text::{
    ascending, blank, chars_of, is_blank, is_listed, join, joined, same, signed_decimal,
    signed_decimal_of, starts, strip_prefix, texts, trim, trimmed,
};
use crate::time::{ms_epoch_to_rfc3339, rfc3339_of_millis};
use vstd::prelude::*;
use vstd::slice::slice_subrange;
use vstd::utf8::{decode_utf8, valid_utf8};

verus! {

/// The adapter for Antigravity.
pub struct AntigravityAdapter;

// ---------------------------------------------------------------------------
// Wire format
// ---------------------------------------------------------------------------

/// The value of a field.
pub enum PbVal<'a> {
    Varint(u64),
    Bytes(&'a [u8]),
}

/// The value of a field, as a mathematical value.
pub enum Wire {
    Varint(u64),
    Bytes(Seq<u8>),
}

impl<'a> DeepView for PbVal<'a> {
    type V = Wire;

    open spec fn deep_view(&self) -> Wire {
        match *self {
            PbVal::Varint(v) => Wire::Varint(v),
            PbVal::Bytes(b) => Wire::Bytes(b@),
        }
    }
}

/// The number of seven-bit groups at `i`, lowest group first, each but the last with its high
/// bit set; with where it ends. `shift` and `acc` are what the groups before `i` brought. There
/// is none where the bytes end too early or go on beyond 64 bits.
pub open spec fn varint_at(buf: Seq<u8>, i: int, shift: int, acc: u64) -> Option<(u64, int)>
    decreases buf.len() - i,
{
    if i < 0 || i >= buf.len() || shift >= 64 {
        None
    } else {
        let value = acc | (((buf[i] & 0x7f) as u64) << (shift as u32));
        if buf[i] & 0x80 == 0 {
            Some((value, i + 1))
        } else {
            varint_at(buf, i + 1, shift + 7, value)
        }
    }
}

/// Reading a number moves on.
pub proof fn varint_moves_on(buf: Seq<u8>, i: int, shift: int, acc: u64)
    ensures
        varint_at(buf, i, shift, acc) matches Some((_, end)) ==> i < end <= buf.len(),
    decreases buf.len() - i,
{
    if 0 <= i < buf.len() && shift < 64 {
        varint_moves_on(
            buf,
            i + 1,
            shift + 7,
            acc | (((buf[i] & 0x7f) as u64) << (shift as u32)),
        );
    }
}

/// What stands at `i`: a field where it is one that is kept, and where the next one begins. There
/// is nothing where the bytes are not a field.
pub open spec fn field_at(buf: Seq<u8>, i: int) -> Option<(Option<(u32, Wire)>, int)> {
    match varint_at(buf, i, 0, 0) {
        None => None,
        Some((tag, at)) => {
            let number = (tag >> 3u64) as u32;
            if tag & 7 == 0 {
                match varint_at(buf, at, 0, 0) {
                    None => None,
                    Some((v, end)) => Some((Some((number, Wire::Varint(v))), end)),
                }
            } else if tag & 7 == 2 {
                match varint_at(buf, at, 0, 0) {
                    None => None,
                    Some((len, from)) => if from + len > buf.len() {
                        None
                    } else {
                        Some(
                            (
                                Some((number, Wire::Bytes(buf.subrange(from, from + len)))),
                                from + len,
                            ),
                        )
                    },
                }
            } else if tag & 7 == 5 {
                Some((None, at + 4))
            } else if tag & 7 == 1 {
                Some((None, at + 8))
            } else {
                None
            }
        },
    }
}

/// Reading a field moves on.
pub proof fn field_moves_on(buf: Seq<u8>, i: int)
    ensures
        field_at(buf, i) matches Some((_, next)) ==> i < next,
{
    varint_moves_on(buf, i, 0, 0);
    match varint_at(buf, i, 0, 0) {
        Some((_, at)) => {
            varint_moves_on(buf, at, 0, 0);
        },
        None => {},
    }
}

/// The fields of a message from `i` on, up to the first bytes that are not one.
pub open spec fn fields_from(buf: Seq<u8>, i: int) -> Seq<(u32, Wire)>
    decreases
            if i < buf.len() {
                buf.len() - i
            } else {
                0
            },
    via fields_shrink
{
    if i >= buf.len() {
        Seq::empty()
    } else {
        match field_at(buf, i) {
            None => Seq::empty(),
            Some((field, next)) => match field {
                Some(f) => seq![f] + fields_from(buf, next),
                None => fields_from(buf, next),
            },
        }
    }
}

#[via_fn]
proof fn fields_shrink(buf: Seq<u8>, i: int) {
    field_moves_on(buf, i);
}

/// The fields of a message.
pub open spec fn fields_of(buf: Seq<u8>) -> Seq<(u32, Wire)> {
    fields_from(buf, 0)
}

/// Fields, as a mathematical value.
pub open spec fn field_views(v: Seq<(u32, PbVal)>) -> Seq<(u32, Wire)> {
    v.map_values(|f: (u32, PbVal)| (f.0, f.1.deep_view()))
}

fn read_varint(buf: &[u8], from: usize) -> (r: Option<(u64, usize)>)
    ensures
        match r {
            Some((v, end)) => varint_at(buf@, from as int, 0, 0) == Some((v, end as int)) && from
                < end <= buf@.len(),
            None => varint_at(buf@, from as int, 0, 0) is None,
        },
{
    proof {
        varint_moves_on(buf@, from as int, 0, 0);
    }
    let mut i: usize = from;
    let mut shift: u32 = 0;
    let mut acc: u64 = 0;
    while i < buf.len() && shift < 64
        invariant
            from <= i,
            shift < 71,
            varint_at(buf@, from as int, 0, 0) == varint_at(buf@, i as int, shift as int, acc),
            varint_at(buf@, from as int, 0, 0) matches Some((_, end)) ==> from < end <= buf@.len(),
        decreases buf@.len() - i,
    {
        let b: u8 = buf[i];
        acc = acc | (((b & 0x7f) as u64) << shift);
        i = i + 1;
        if b & 0x80 == 0 {
            return Some((acc, i));
        }
        shift = shift + 7;
    }
    None
}

/// The fields of a message, up to the first bytes that are not one.
pub fn pb_fields<'a>(buf: &'a [u8]) -> (r: Vec<(u32, PbVal<'a>)>)
    ensures
        field_views(r@) == fields_of(buf@),
{
    let mut out: Vec<(u32, PbVal<'a>)> = Vec::new();
    let n: usize = buf.len();
    let mut i: usize = 0;
    assert(field_views(out@) + fields_from(buf@, 0) =~= fields_of(buf@));
    while i < n
        invariant
            n == buf@.len(),
            i <= n,
            field_views(out@) + fields_from(buf@, i as int) == fields_of(buf@),
        decreases n - i,
    {
        let ghost before = field_views(out@);
        let (tag, at): (u64, usize) = match read_varint(buf, i) {
            Some(r) => r,
            None => {
                assert(before + Seq::<(u32, Wire)>::empty() =~= before);
                return out;
            },
        };
        let number: u32 = (tag >> 3u64) as u32;
        let kind: u64 = tag & 7;
        if kind == 0 {
            match read_varint(buf, at) {
                Some((v, end)) => {
                    let ghost f = (number, Wire::Varint(v));
                    out.push((number, PbVal::Varint(v)));
                    assert(field_views(out@) =~= before.push(f));
                    assert(before + (seq![f] + fields_from(buf@, end as int)) =~= before.push(f)
                        + fields_from(buf@, end as int));
                    i = end;
                },
                None => {
                    assert(before + Seq::<(u32, Wire)>::empty() =~= before);
                    return out;
                },
            }
        } else if kind == 2 {
            match read_varint(buf, at) {
                Some((len, from)) => {
                    if len > (n - from) as u64 {
                        assert(before + Seq::<(u32, Wire)>::empty() =~= before);
                        return out;
                    }
                    let end: usize = from + len as usize;
                    let ghost f = (number, Wire::Bytes(buf@.subrange(from as int, end as int)));
                    let bytes: &'a [u8] = slice_subrange(buf, from, end);
                    out.push((number, PbVal::Bytes(bytes)));
                    assert(field_views(out@) =~= before.push(f));
                    assert(before + (seq![f] + fields_from(buf@, end as int)) =~= before.push(f)
                        + fields_from(buf@, end as int));
                    i = end;
                },
                None => {
                    assert(before + Seq::<(u32, Wire)>::empty() =~= before);
                    return out;
                },
            }
        } else if kind == 5 || kind == 1 {
            let width: usize = if kind == 5 {
                4
            } else {
                8
            };
            if n - at < width {
                assert(fields_from(buf@, at + width) =~= Seq::<(u32, Wire)>::empty());
                assert(before + Seq::<(u32, Wire)>::empty() =~= before);
                return out;
            }
            i = at + width;
        } else {
            assert(before + Seq::<(u32, Wire)>::empty() =~= before);
            return out;
        }
    }
    assert(field_views(out@) + Seq::<(u32, Wire)>::empty() =~= field_views(out@));
    out
}

/// The first number in a field.
pub open spec fn first_varint(fields: Seq<(u32, Wire)>, number: u32) -> Option<u64>
    decreases fields.len(),
{
    if fields.len() == 0 {
        None
    } else {
        match fields[0].1 {
            Wire::Varint(v) if fields[0].0 == number => Some(v),
            _ => first_varint(fields.drop_first(), number),
        }
    }
}

/// The first bytes in a field that are not empty.
pub open spec fn first_bytes(fields: Seq<(u32, Wire)>, number: u32) -> Option<Seq<u8>>
    decreases fields.len(),
{
    if fields.len() == 0 {
        None
    } else {
        match fields[0].1 {
            Wire::Bytes(b) if fields[0].0 == number && b.len() > 0 => Some(b),
            _ => first_bytes(fields.drop_first(), number),
        }
    }
}

/// The message in a field.
pub open spec fn message_in(buf: Seq<u8>, number: u32) -> Option<Seq<u8>> {
    first_bytes(fields_of(buf), number)
}

/// The text in a field, where its bytes are UTF-8.
pub open spec fn text_in(buf: Seq<u8>, number: u32) -> Option<Seq<char>> {
    match message_in(buf, number) {
        Some(b) if valid_utf8(b) => Some(decode_utf8(b)),
        _ => None,
    }
}

/// The text in a field, where it is not blank.
pub open spec fn solid_text_in(buf: Seq<u8>, number: u32) -> Option<Seq<char>> {
    match text_in(buf, number) {
        Some(s) if !blank(s) => Some(s),
        _ => None,
    }
}

/// The first number in a field.
pub fn pb_varint(buf: &[u8], number: u32) -> (r: Option<u64>)
    ensures
        r == first_varint(fields_of(buf@), number),
{
    let fields = pb_fields(buf);
    let ghost all = field_views(fields@);
    let mut i: usize = 0;
    assert(all.skip(0) =~= all);
    while i < fields.len()
        invariant
            i <= fields@.len(),
            all == field_views(fields@),
            all == fields_of(buf@),
            first_varint(all, number) == first_varint(all.skip(i as int), number),
        decreases fields@.len() - i,
    {
        assert(all.skip(i as int)[0] == (fields@[i as int].0, fields@[i as int].1.deep_view()));
        assert(all.skip(i as int).drop_first() =~= all.skip(i + 1));
        match &fields[i].1 {
            PbVal::Varint(v) => {
                if fields[i].0 == number {
                    return Some(*v);
                }
            },
            _ => {},
        }
        i = i + 1;
    }
    None
}

/// The message in a field.
pub fn pb_sub<'a>(buf: &'a [u8], number: u32) -> (r: Option<&'a [u8]>)
    ensures
        match r {
            Some(b) => message_in(buf@, number) == Some(b@),
            None => message_in(buf@, number) is None,
        },
{
    let fields = pb_fields(buf);
    let ghost all = field_views(fields@);
    let mut i: usize = 0;
    assert(all.skip(0) =~= all);
    while i < fields.len()
        invariant
            i <= fields@.len(),
            all == field_views(fields@),
            all == fields_of(buf@),
            first_bytes(all, number) == first_bytes(all.skip(i as int), number),
        decreases fields@.len() - i,
    {
        assert(all.skip(i as int)[0] == (fields@[i as int].0, fields@[i as int].1.deep_view()));
        assert(all.skip(i as int).drop_first() =~= all.skip(i + 1));
        match fields[i].1 {
            PbVal::Bytes(b) => {
                if fields[i].0 == number && b.len() > 0 {
                    return Some(b);
                }
            },
            _ => {},
        }
        i = i + 1;
    }
    None
}

/// The text in a field.
pub fn pb_str(buf: &[u8], number: u32) -> (r: Option<String>)
    ensures
        r.deep_view() == text_in(buf@, number),
{
    match pb_sub(buf, number) {
        Some(b) => decode_strict(b),
        None => None,
    }
}

/// The text in a field, where it is not blank.
pub fn pb_text(buf: &[u8], number: u32) -> (r: Option<String>)
    ensures
        r.deep_view() == solid_text_in(buf@, number),
{
    match pb_str(buf, number) {
        Some(s) => {
            if is_blank(s.as_str()) {
                None
            } else {
                Some(s)
            }
        },
        None => None,
    }
}

// ---------------------------------------------------------------------------
// Steps
// ---------------------------------------------------------------------------

/// The time of whole seconds since the epoch, where they are a date.
pub open spec fn time_of_seconds(secs: i64) -> Option<Seq<char>> {
    if i64::MIN <= secs * 1000 <= i64::MAX {
        rfc3339_of_millis((secs * 1000) as i64)
    } else {
        None
    }
}

fn seconds_to_rfc3339(secs: i64) -> (r: Option<String>)
    ensures
        r.deep_view() == time_of_seconds(secs),
{
    match secs.checked_mul(1000) {
        Some(ms) => ms_epoch_to_rfc3339(ms),
        None => None,
    }
}

/// The time in a message of seconds and nanoseconds.
pub open spec fn time_in(ts: Seq<u8>) -> Option<Seq<char>> {
    match first_varint(fields_of(ts), 1) {
        Some(secs) => time_of_seconds(secs as i64),
        None => None,
    }
}

/// When a step was made.
pub open spec fn step_time(payload: Seq<u8>) -> Option<Seq<char>> {
    match message_in(payload, 5) {
        None => None,
        Some(envelope) => match message_in(envelope, 1) {
            None => None,
            Some(ts) => time_in(ts),
        },
    }
}

fn time_in_message(ts: &[u8]) -> (r: Option<String>)
    ensures
        r.deep_view() == time_in(ts@),
{
    match pb_varint(ts, 1) {
        Some(secs) => seconds_to_rfc3339(secs as i64),
        None => None,
    }
}

/// When a step was made.
pub fn step_timestamp(payload: &[u8]) -> (r: Option<String>)
    ensures
        r.deep_view() == step_time(payload@),
{
    match pb_sub(payload, 5) {
        None => None,
        Some(envelope) => match pb_sub(envelope, 1) {
            None => None,
            Some(ts) => time_in_message(ts),
        },
    }
}

/// What the user typed in a user turn.
pub open spec fn typed(payload: Seq<u8>) -> Option<Seq<char>> {
    match message_in(payload, 19) {
        None => None,
        Some(turn) => match first_of(
            solid_text_in(turn, 2),
            match message_in(turn, 3) {
                Some(m) => solid_text_in(m, 1),
                None => None,
            },
        ) {
            Some(s) => Some(trimmed(s)),
            None => None,
        },
    }
}

/// What the user typed in a user turn.
pub fn user_text(payload: &[u8]) -> (r: Option<String>)
    ensures
        r.deep_view() == typed(payload@),
{
    match pb_sub(payload, 19) {
        None => None,
        Some(turn) => {
            let text: Option<String> = match pb_text(turn, 2) {
                Some(s) => Some(s),
                None => match pb_sub(turn, 3) {
                    Some(m) => pb_text(m, 1),
                    None => None,
                },
            };
            match text {
                Some(s) => Some(trim(s.as_str())),
                None => None,
            }
        },
    }
}

/// The visible prose of an agent turn, part by part.
pub open spec fn turn_prose(fields: Seq<(u32, Wire)>) -> Seq<Seq<char>>
    decreases fields.len(),
{
    if fields.len() == 0 {
        Seq::empty()
    } else {
        let before = turn_prose(fields.drop_last());
        match fields.last().1 {
            Wire::Bytes(part) if fields.last().0 == 20 => match solid_text_in(part, 3) {
                Some(t) => before.push(t),
                None => before,
            },
            _ => before,
        }
    }
}

/// How many parts of an agent turn are tool calls.
pub open spec fn turn_calls(fields: Seq<(u32, Wire)>) -> nat
    decreases fields.len(),
{
    if fields.len() == 0 {
        0
    } else {
        let before = turn_calls(fields.drop_last());
        match fields.last().1 {
            Wire::Bytes(part) if fields.last().0 == 20 && message_in(part, 7) is Some => before + 1,
            _ => before,
        }
    }
}

/// The visible prose of an agent turn, and how many of its parts are tool calls.
pub fn agent_turn(payload: &[u8]) -> (r: (Vec<String>, u64))
    ensures
        texts(r.0@) == turn_prose(fields_of(payload@)),
        r.1 == turn_calls(fields_of(payload@)),
{
    let fields = pb_fields(payload);
    let ghost all = field_views(fields@);
    let mut prose: Vec<String> = Vec::new();
    let mut calls: u64 = 0;
    let mut i: usize = 0;
    assert(all.take(0) =~= Seq::<(u32, Wire)>::empty());
    assert(texts(prose@) =~= Seq::<Seq<char>>::empty());
    while i < fields.len()
        invariant
            i <= fields@.len(),
            all == field_views(fields@),
            calls <= i,
            texts(prose@) == turn_prose(all.take(i as int)),
            calls == turn_calls(all.take(i as int)),
        decreases fields@.len() - i,
    {
        assert(all.take(i + 1).drop_last() =~= all.take(i as int));
        assert(all.take(i + 1).last() == (fields@[i as int].0, fields@[i as int].1.deep_view()));
        match fields[i].1 {
            PbVal::Bytes(part) => {
                if fields[i].0 == 20 {
                    match pb_text(part, 3) {
                        Some(t) => {
                            let ghost before = texts(prose@);
                            prose.push(t);
                            assert(texts(prose@) =~= before.push(t@));
                        },
                        None => {},
                    }
                    if pb_sub(part, 7).is_some() {
                        calls = calls + 1;
                    }
                }
            },
            _ => {},
        }
        i = i + 1;
    }
    assert(all.take(i as int) =~= all);
    (prose, calls)
}

/// The place and the identity of a step.
pub open spec fn step_name(idx: int) -> Seq<char> {
    "step:"@ + signed_decimal(idx)
}

/// A message that a step holds.
pub open spec fn step_message(
    idx: int,
    role: SessionMessageRole,
    text: Seq<char>,
    payload: Seq<u8>,
) -> Message {
    Message {
        source_position: step_name(idx),
        ts: step_time(payload),
        ..message_of(Some(step_name(idx)), role, text)
    }
}

/// What a step contributes: 14 is a user turn, 15 an agent turn, 132 a tool call, 17 an error.
pub open spec fn line_of(idx: int, step_type: int, payload: Seq<u8>, is_root: bool) -> Option<
    Line,
> {
    if step_type == 14 && is_root {
        match typed(payload) {
            Some(text) => Some(
                Line {
                    message: Some(step_message(idx, SessionMessageRole::User, text, payload)),
                    observation: MemberObservation::nothing(),
                },
            ),
            None => None,
        }
    } else if step_type == 15 && is_root {
        let fields = fields_of(payload);
        let observation = MemberObservation {
            tool_calls: turn_calls(fields) as u64,
            ..MemberObservation::nothing()
        };
        let text = trimmed(joined(turn_prose(fields), "\n\n"@));
        Some(
            Line {
                message: if text.len() == 0 {
                    None
                } else {
                    Some(step_message(idx, SessionMessageRole::Assistant, text, payload))
                },
                observation,
            },
        )
    } else if step_type == 132 {
        Some(counted(MemberObservation { tool_calls: 1, ..MemberObservation::nothing() }))
    } else if step_type == 17 {
        Some(counted(MemberObservation { tool_errors: 1, ..MemberObservation::nothing() }))
    } else {
        None
    }
}

fn message_of_step(idx: i64, role: SessionMessageRole, text: String, payload: &[u8]) -> (r:
    ParsedSessionMessage)
    ensures
        r.deep_view() == step_message(idx as int, role, text@, payload@),
{
    let mut name: String = "step:".to_owned();
    name.append(signed_decimal_of(idx).as_str());
    crate::adapters::parsed_message(Some(name.clone()), role, text).with_position(name).with_ts(
        step_timestamp(payload),
    )
}

/// What a step contributes.
pub fn parse_step(idx: i64, step_type: i64, payload: &[u8], is_root: bool) -> (r: Option<
    ParsedLine,
>)
    ensures
        r.deep_view() == line_of(idx as int, step_type as int, payload@, is_root),
{
    if step_type == 14 && is_root {
        match user_text(payload) {
            Some(text) => Some(
                ParsedLine::message_only(
                    message_of_step(idx, SessionMessageRole::User, text, payload),
                ),
            ),
            None => None,
        }
    } else if step_type == 15 && is_root {
        let (prose, tool_calls) = agent_turn(payload);
        let observation = MemberObservation {
            tool_calls,
            tool_errors: 0,
            compactions: 0,
            side_activity: 0,
        };
        let text = trim(join(&prose, "\n\n").as_str());
        if text.as_str().is_empty() {
            return Some(ParsedLine::observation_only(observation));
        }
        Some(
            ParsedLine {
                message: Some(
                    message_of_step(idx, SessionMessageRole::Assistant, text, payload),
                ),
                observation,
            },
        )
    } else if step_type == 132 {
        Some(
            ParsedLine::observation_only(
                MemberObservation {
                    tool_calls: 1,
                    tool_errors: 0,
                    compactions: 0,
                    side_activity: 0,
                },
            ),
        )
    } else if step_type == 17 {
        Some(
            ParsedLine::observation_only(
                MemberObservation {
                    tool_calls: 0,
                    tool_errors: 1,
                    compactions: 0,
                    side_activity: 0,
                },
            ),
        )
    } else {
        None
    }
}

// ---------------------------------------------------------------------------
// Discovery
// ---------------------------------------------------------------------------

/// What the list of conversations says about one.
pub struct Summary {
    pub title: String,
    pub preview: String,
    pub parent_conversation_id: Option<String>,
    pub workspace_uris: String,
}

/// A character of a conversation id.
pub open spec fn id_char(c: char) -> bool {
    c == '-' || '0' <= c <= '9' || 'a' <= c <= 'f' || 'A' <= c <= 'F'
}

/// An id consists of hexadecimal digits and dashes.
pub open spec fn conversation_id(id: Seq<char>) -> bool {
    forall|i: int| 0 <= i < id.len() ==> id_char(#[trigger] id[i])
}

fn is_conversation_id(id: &str) -> (r: bool)
    ensures
        r == conversation_id(id@),
{
    let v = chars_of(id);
    let mut i: usize = 0;
    while i < v.len()
        invariant
            i <= v@.len(),
            v@ == id@,
            forall|k: int| 0 <= k < i ==> id_char(#[trigger] v@[k]),
        decreases v@.len() - i,
    {
        let c: char = v[i];
        if !(c == '-' || ('0' <= c && c <= '9') || ('a' <= c && c <= 'f') || ('A' <= c && c
            <= 'F')) {
            assert(!id_char(id@[i as int]));
            return false;
        }
        i = i + 1;
    }
    true
}

/// The first workspace in a list of them.
pub open spec fn first_workspace(list: Option<Tree>) -> Option<Seq<char>> {
    match list {
        Some(Tree::List(items)) => if items.len() > 0 {
            items[0].text()
        } else {
            None
        },
        _ => None,
    }
}

/// The workspace that a conversation's own metadata names.
pub open spec fn own_workspace(metadata: Option<Seq<u8>>) -> Option<Seq<char>> {
    match metadata {
        None => None,
        Some(m) => match message_in(m, 1) {
            None => None,
            Some(w) => text_in(w, 1),
        },
    }
}

/// The directory that a workspace is.
pub open spec fn directory_of(uri: Option<Seq<char>>) -> Option<Seq<char>> {
    match uri {
        None => None,
        Some(u) => {
            let path = if starts(u, "file://"@) {
                u.skip("file://"@.len() as int)
            } else {
                u
            };
            if path.len() == 0 {
                None
            } else {
                Some(path)
            }
        },
    }
}

/// When a conversation started.
pub open spec fn start_of(metadata: Option<Seq<u8>>) -> Option<Seq<char>> {
    match metadata {
        None => None,
        Some(m) => match message_in(m, 2) {
            None => None,
            Some(ts) => time_in(ts),
        },
    }
}

/// A text without white space at its ends, where anything is left.
pub open spec fn solid(s: Seq<char>) -> Option<Seq<char>> {
    if blank(s) {
        None
    } else {
        Some(trimmed(s))
    }
}

/// The list of workspaces that the list of conversations gives, where it is a document.
pub open spec fn listed_workspaces(summary: Option<Summary>) -> Option<Tree> {
    match summary {
        Some(s) => parsed(s.workspace_uris@),
        None => None,
    }
}

/// The member that a conversation is. `metadata` is its own, `summary` what the list of
/// conversations says.
pub open spec fn member_of(
    file: FoundFile,
    metadata: Option<Seq<u8>>,
    summary: Option<Summary>,
) -> Member {
    member_with(file, metadata, summary, listed_workspaces(summary))
}

/// The member that a conversation with this list of workspaces is. Only a root has a title.
pub open spec fn member_with(
    file: FoundFile,
    metadata: Option<Seq<u8>>,
    summary: Option<Summary>,
    list: Option<Tree>,
) -> Member {
    let parent = match summary {
        Some(s) => match s.parent_conversation_id.deep_view() {
            Some(p) if p.len() > 0 => Some(p),
            _ => None,
        },
        None => None,
    };
    Member {
        agent: Agent::Antigravity,
        source_member_id: stem_of(file.name@),
        kind: if parent is Some {
            DiscoveredMemberKind::Child
        } else {
            DiscoveredMemberKind::Root
        },
        parent_source_member_id: parent,
        root_hint: None,
        source_kind: "antigravity_conversation"@,
        source_path: file.path@,
        cwd: directory_of(first_of(first_workspace(list), own_workspace(metadata))),
        started_at: start_of(metadata),
        last_activity_at: file.modified.deep_view(),
        native_title: match summary {
            Some(s) if parent is None => first_of(solid(s.title@), solid(s.preview@)),
            _ => None,
        },
        first_user_text: None,
        first_agent_text: None,
        metadata: Tree::Object(Seq::empty()),
    }
}

/// A document that may be missing, as a mathematical value.
pub open spec fn tree_where(v: Option<Json>) -> Option<Tree> {
    match v {
        Some(v) => Some(v.tree()),
        None => None,
    }
}

/// Bytes that may be missing, as a mathematical value.
pub open spec fn bytes_where(b: Option<Vec<u8>>) -> Option<Seq<u8>> {
    match b {
        Some(v) => Some(v@),
        None => None,
    }
}

fn workspace_of(list: &Option<Json>, metadata: &Option<Vec<u8>>) -> (r: Option<String>)
    ensures
        r.deep_view() == first_of(
            first_workspace(tree_where(*list)),
            own_workspace(bytes_where(*metadata)),
        ),
{
    let listed: Option<String> = match list {
        Some(v) => match v.as_array() {
            Some(items) => {
                if items.len() > 0 {
                    assert(trees(items@)[0] == items@[0].tree());
                    match items[0].as_str() {
                        Some(s) => Some(s.to_owned()),
                        None => None,
                    }
                } else {
                    None
                }
            },
            None => None,
        },
        None => None,
    };
    if listed.is_some() {
        return listed;
    }
    match metadata {
        Some(m) => match pb_sub(m.as_slice(), 1) {
            Some(w) => pb_str(w, 1),
            None => None,
        },
        None => None,
    }
}

fn directory_of_uri(uri: Option<String>) -> (r: Option<String>)
    ensures
        r.deep_view() == directory_of(uri.deep_view()),
{
    match uri {
        None => None,
        Some(u) => {
            let path: String = match strip_prefix(u.as_str(), "file://") {
                Some(p) => p,
                None => u,
            };
            if path.as_str().is_empty() {
                None
            } else {
                Some(path)
            }
        },
    }
}

fn solid_text(s: &str) -> (r: Option<String>)
    ensures
        r.deep_view() == solid(s@),
{
    let t = trim(s);
    if t.as_str().is_empty() {
        None
    } else {
        Some(t)
    }
}

impl AntigravityAdapter {
    /// The member that a conversation is; none where the file name is no conversation id.
    pub fn parse_member(
        file: &FoundFile,
        metadata: &Option<Vec<u8>>,
        summary: &Option<Summary>,
    ) -> (r: Option<DiscoveredMember>)
        ensures
            r.deep_view() == (if conversation_id(stem_of(file.name@)) {
                Some(member_of(*file, bytes_where(*metadata), *summary))
            } else {
                None
            }),
    {
        let list: Option<Json> = match summary {
            Some(s) => parse(s.workspace_uris.as_str()),
            None => None,
        };
        AntigravityAdapter::member_from(file, metadata, summary, &list)
    }

    /// The member that a conversation with this list of workspaces is; none where the file name is
    /// no conversation id.
    pub fn member_from(
        file: &FoundFile,
        metadata: &Option<Vec<u8>>,
        summary: &Option<Summary>,
        list: &Option<Json>,
    ) -> (r: Option<DiscoveredMember>)
        ensures
            r.deep_view() == (if conversation_id(stem_of(file.name@)) {
                Some(member_with(*file, bytes_where(*metadata), *summary, tree_where(*list)))
            } else {
                None
            }),
    {
        let id = file_stem(file.name.as_str());
        if !is_conversation_id(id.as_str()) {
            return None;
        }
        let started_at: Option<String> = match metadata {
            Some(m) => match pb_sub(m.as_slice(), 2) {
                Some(ts) => time_in_message(ts),
                None => None,
            },
            None => None,
        };
        let mut parent: Option<String> = None;
        let mut native_title: Option<String> = None;
        match summary {
            Some(s) => {
                parent =
                match &s.parent_conversation_id {
                    Some(p) => {
                        if p.as_str().is_empty() {
                            None
                        } else {
                            Some(p.clone())
                        }
                    },
                    None => None,
                };
                if parent.is_none() {
                    native_title =
                    first_text(solid_text(s.title.as_str()), solid_text(s.preview.as_str()));
                }
            },
            None => {},
        }
        let cwd = directory_of_uri(workspace_of(list, metadata));
        Some(
            DiscoveredMember {
                agent: Agent::Antigravity,
                source_member_id: id,
                kind: if parent.is_some() {
                    DiscoveredMemberKind::Child
                } else {
                    DiscoveredMemberKind::Root
                },
                parent_source_member_id: parent,
                root_hint: None,
                source_kind: "antigravity_conversation".to_owned(),
                source_path: file.path.clone(),
                cwd,
                started_at,
                last_activity_at: copy_text(&file.modified),
                native_title,
                first_user_text: None,
                first_agent_text: None,
                metadata: empty_object(),
            },
        )
    }
}

// ---------------------------------------------------------------------------
// Reading
// ---------------------------------------------------------------------------

/// A step of a conversation.
pub struct StepRow {
    pub idx: i64,
    pub step_type: i64,
    pub payload: Vec<u8>,
}

/// The messages and the counts of a conversation's steps.
pub open spec fn read_of(rows: Seq<StepRow>, is_root: bool) -> (Seq<Message>, MemberObservation)
    decreases rows.len(),
{
    if rows.len() == 0 {
        (Seq::empty(), MemberObservation::nothing())
    } else {
        let before = read_of(rows.drop_last(), is_root);
        let row = rows.last();
        match line_of(row.idx as int, row.step_type as int, row.payload@, is_root) {
            None => before,
            Some(l) => (
                match l.message {
                    Some(m) if !blank(m.content) => before.0.push(m),
                    _ => before.0,
                },
                before.1.plus(l.observation),
            ),
        }
    }
}

impl AntigravityAdapter {
    /// Reads a conversation: all of its steps, each time.
    pub fn read_member_delta(
        relation: SessionMemberRelation,
        rows: &Vec<StepRow>,
        file: &SourceFile,
        cursor: &SessionMemberCursor,
    ) -> (r: MemberReadDelta)
        requires
            cursor.generation < i64::MAX,
        ensures
            r.deep_view() == (Delta {
                messages: read_of(rows@, relation is Root).0,
                stats: stats_of(
                    read_of(rows@, relation is Root).1,
                    0,
                    StatsCapabilities {
                        tool_calls: true,
                        tool_errors: true,
                        compactions: true,
                        side_activity: false,
                    },
                ),
                source: Some(replayed_source(*file, *cursor)),
                next_active: Provenance::unknown(),
            }),
    {
        let is_root: bool = matches!(relation, SessionMemberRelation::Root);
        let mut messages: Vec<ParsedSessionMessage> = Vec::new();
        let mut observation = MemberObservation::default();
        let mut i: usize = 0;
        assert(rows@.take(0) =~= Seq::<StepRow>::empty());
        assert(messages.deep_view() =~= Seq::<Message>::empty());
        while i < rows.len()
            invariant
                i <= rows@.len(),
                messages.deep_view() == read_of(rows@.take(i as int), is_root).0,
                observation == read_of(rows@.take(i as int), is_root).1,
            decreases rows@.len() - i,
        {
            assert(rows@.take(i + 1).drop_last() =~= rows@.take(i as int));
            assert(rows@.take(i + 1).last() == rows@[i as int]);
            match parse_step(rows[i].idx, rows[i].step_type, rows[i].payload.as_slice(), is_root) {
                None => {},
                Some(p) => {
                    observation.add(&p.observation);
                    match p.message {
                        Some(m) => {
                            if !is_blank(m.content.as_str()) {
                                let ghost before = messages.deep_view();
                                messages.push(m);
                                assert(messages.deep_view() =~= before.push(m.deep_view()));
                            }
                        },
                        None => {},
                    }
                },
            }
            i = i + 1;
        }
        assert(rows@.take(i as int) =~= rows@);
        let source = replay_cursor_update(file, cursor);
        MemberReadDelta {
            stats: stats_update_from(
                &observation,
                &source,
                StatsCapabilities::tool_calls_errors_and_compaction(),
            ),
            messages,
            source: Some(source),
            next_active_provider: None,
            next_active_model: None,
        }
    }

    /// A new session cannot be launched.
    pub fn build_new_command() -> (r: Result<AgentCommand, AppError>)
        ensures
            r matches Err(e) && e.deep_view() == Fault::Other(
                "Antigravity 没有可启动的 CLI，NoEnding 只读取它的历史会话"@,
            ),
    {
        Err(other("Antigravity 没有可启动的 CLI，NoEnding 只读取它的历史会话"))
    }

    /// A session cannot be continued.
    pub fn build_resume_command() -> (r: Result<AgentCommand, AppError>)
        ensures
            r matches Err(e) && e.deep_view() == Fault::Other(
                "Antigravity 没有可恢复的 CLI，无法恢复会话"@,
            ),
    {
        Err(other("Antigravity 没有可恢复的 CLI，无法恢复会话"))
    }

    /// One answer cannot be asked for.
    pub fn build_exec_command() -> (r: Result<AgentCommand, AppError>)
        ensures
            r matches Err(e) && e.deep_view() == Fault::Other(
                "Antigravity 没有可执行的 CLI，无法一次性执行"@,
            ),
    {
        Err(other("Antigravity 没有可执行的 CLI，无法一次性执行"))
    }
}

// ---------------------------------------------------------------------------
// Laws
// ---------------------------------------------------------------------------

/// From `i` on there are whole fields and nothing else.
pub open spec fn whole_from(buf: Seq<u8>, i: int) -> bool
    decreases
            if i < buf.len() {
                buf.len() - i
            } else {
                0
            },
    via whole_shrinks
{
    if i >= buf.len() {
        i == buf.len()
    } else {
        match field_at(buf, i) {
            None => false,
            Some((_, next)) => whole_from(buf, next),
        }
    }
}

#[via_fn]
proof fn whole_shrinks(buf: Seq<u8>, i: int) {
    field_moves_on(buf, i);
}

proof fn varint_keeps(a: Seq<u8>, b: Seq<u8>, i: int, shift: int, acc: u64)
    requires
        varint_at(a, i, shift, acc) is Some,
    ensures
        varint_at(a + b, i, shift, acc) == varint_at(a, i, shift, acc),
    decreases a.len() - i,
{
    assert((a + b)[i] == a[i]);
    if a[i] & 0x80 != 0 {
        varint_keeps(
            a,
            b,
            i + 1,
            shift + 7,
            acc | (((a[i] & 0x7f) as u64) << (shift as u32)),
        );
    }
}

proof fn varint_moves_along(a: Seq<u8>, b: Seq<u8>, i: int, shift: int, acc: u64)
    requires
        0 <= i,
    ensures
        varint_at(a + b, a.len() + i, shift, acc) == (match varint_at(b, i, shift, acc) {
            Some((v, end)) => Some((v, a.len() + end)),
            None => None,
        }),
    decreases b.len() - i,
{
    if i < b.len() && shift < 64 {
        assert((a + b)[a.len() + i] == b[i]);
        if b[i] & 0x80 != 0 {
            varint_moves_along(
                a,
                b,
                i + 1,
                shift + 7,
                acc | (((b[i] & 0x7f) as u64) << (shift as u32)),
            );
        }
    }
}

proof fn field_keeps(a: Seq<u8>, b: Seq<u8>, i: int)
    requires
        field_at(a, i) is Some,
    ensures
        field_at(a + b, i) == field_at(a, i),
{
    varint_keeps(a, b, i, 0, 0);
    varint_moves_on(a, i, 0, 0);
    let (tag, at) = varint_at(a, i, 0, 0)->0;
    if tag & 7 == 0 || tag & 7 == 2 {
        varint_keeps(a, b, at, 0, 0);
        varint_moves_on(a, at, 0, 0);
        let (len, from) = varint_at(a, at, 0, 0)->0;
        if tag & 7 == 2 {
            assert((a + b).subrange(from, from + len) =~= a.subrange(from, from + len));
        }
    }
}

proof fn field_moves_along(a: Seq<u8>, b: Seq<u8>, i: int)
    requires
        0 <= i,
    ensures
        field_at(a + b, a.len() + i) == (match field_at(b, i) {
            Some((f, next)) => Some((f, a.len() + next)),
            None => None,
        }),
{
    varint_moves_along(a, b, i, 0, 0);
    varint_moves_on(b, i, 0, 0);
    match varint_at(b, i, 0, 0) {
        None => {},
        Some((tag, at)) => {
            varint_moves_along(a, b, at, 0, 0);
            varint_moves_on(b, at, 0, 0);
            match varint_at(b, at, 0, 0) {
                None => {},
                Some((len, from)) => if from + len <= b.len() {
                    assert((a + b).subrange(a.len() + from, a.len() + from + len) =~= b.subrange(
                        from,
                        from + len,
                    ));
                },
            }
        },
    }
}

proof fn fields_move_along(a: Seq<u8>, b: Seq<u8>, i: int)
    requires
        0 <= i,
    ensures
        fields_from(a + b, a.len() + i) == fields_from(b, i),
    decreases
            if i < b.len() {
                b.len() - i
            } else {
                0
            },
{
    if i < b.len() {
        field_moves_along(a, b, i);
        field_moves_on(b, i);
        match field_at(b, i) {
            None => {},
            Some((_, next)) => {
                fields_move_along(a, b, next);
            },
        }
    }
}

proof fn whole_fields_are_kept(a: Seq<u8>, b: Seq<u8>, i: int)
    requires
        0 <= i,
        whole_from(a, i),
    ensures
        fields_from(a + b, i) == fields_from(a, i) + fields_from(b, 0),
    decreases
            if i < a.len() {
                a.len() - i
            } else {
                0
            },
{
    if i >= a.len() {
        fields_move_along(a, b, 0);
        assert(fields_from(a, i) + fields_from(b, 0) =~= fields_from(b, 0));
    } else {
        field_keeps(a, b, i);
        field_moves_on(a, i);
        let (f, next) = field_at(a, i)->0;
        whole_fields_are_kept(a, b, next);
        match f {
            Some(x) => {
                assert(seq![x] + (fields_from(a, next) + fields_from(b, 0)) =~= (seq![x]
                    + fields_from(a, next)) + fields_from(b, 0));
            },
            None => {},
        }
    }
}

/// Whole fields and any bytes behind them are read as the fields of either, one after the other.
pub proof fn whole_fields_are_read_on_their_own(a: Seq<u8>, b: Seq<u8>)
    requires
        whole_from(a, 0),
    ensures
        fields_of(a + b) == fields_of(a) + fields_of(b),
{
    whole_fields_are_kept(a, b, 0);
}

/// Where the fields that are kept stand, from `i` on: where each begins and ends.
pub open spec fn spans_from(buf: Seq<u8>, i: int) -> Seq<(int, int)>
    decreases
            if i < buf.len() {
                buf.len() - i
            } else {
                0
            },
    via spans_shrink
{
    if i >= buf.len() {
        Seq::empty()
    } else {
        match field_at(buf, i) {
            None => Seq::empty(),
            Some((field, next)) => match field {
                Some(f) => seq![(i, next)] + spans_from(buf, next),
                None => spans_from(buf, next),
            },
        }
    }
}

#[via_fn]
proof fn spans_shrink(buf: Seq<u8>, i: int) {
    field_moves_on(buf, i);
}

/// The bytes of a field are the last ones of the place where it stands.
pub open spec fn ends_with_value(buf: Seq<u8>, span: (int, int), value: Wire) -> bool {
    match value {
        Wire::Varint(_) => true,
        Wire::Bytes(b) => b.len() <= span.1 - span.0 && b == buf.subrange(
            span.1 - b.len(),
            span.1,
        ),
    }
}

proof fn spans_from_are_places(buf: Seq<u8>, i: int)
    requires
        0 <= i,
    ensures
        ({
            let spans = spans_from(buf, i);
            let fields = fields_from(buf, i);
            &&& spans.len() == fields.len()
            &&& forall|k: int|
                0 <= k < spans.len() ==> i <= (#[trigger] spans[k]).0 < spans[k].1 <= buf.len()
                    && ends_with_value(buf, spans[k], fields[k].1)
            &&& forall|j: int, k: int|
                0 <= j < k < spans.len() ==> (#[trigger] spans[j]).1 <= (#[trigger] spans[k]).0
        }),
    decreases
            if i < buf.len() {
                buf.len() - i
            } else {
                0
            },
{
    if i < buf.len() {
        field_moves_on(buf, i);
        varint_moves_on(buf, i, 0, 0);
        match field_at(buf, i) {
            None => {},
            Some((field, next)) => {
                let (_, at) = varint_at(buf, i, 0, 0)->0;
                varint_moves_on(buf, at, 0, 0);
                spans_from_are_places(buf, next);
                let rest = spans_from(buf, next);
                let others = fields_from(buf, next);
                match field {
                    None => {},
                    Some(f) => {
                        let spans = spans_from(buf, i);
                        let fields = fields_from(buf, i);
                        assert(ends_with_value(buf, (i, next), f.1));
                        assert forall|k: int| 0 <= k < spans.len() implies i <= (
                        #[trigger] spans[k]).0 < spans[k].1 <= buf.len() && ends_with_value(
                            buf,
                            spans[k],
                            fields[k].1,
                        ) by {
                            if k > 0 {
                                assert(spans[k] == rest[k - 1]);
                                assert(fields[k] == others[k - 1]);
                            }
                        }
                        assert forall|j: int, k: int| 0 <= j < k < spans.len() implies (
                        #[trigger] spans[j]).1 <= (#[trigger] spans[k]).0 by {
                            assert(spans[k] == rest[k - 1]);
                            if j > 0 {
                                assert(spans[j] == rest[j - 1]);
                            }
                        }
                    },
                }
            },
        }
    }
}

/// Every field that is read stands in the message, behind the one before it, and its bytes are a
/// part of the message.
pub proof fn fields_stand_in_order(buf: Seq<u8>)
    ensures
        ({
            let spans = spans_from(buf, 0);
            let fields = fields_of(buf);
            &&& spans.len() == fields.len()
            &&& forall|k: int|
                0 <= k < spans.len() ==> 0 <= (#[trigger] spans[k]).0 < spans[k].1 <= buf.len()
                    && ends_with_value(buf, spans[k], fields[k].1)
            &&& forall|j: int, k: int|
                0 <= j < k < spans.len() ==> (#[trigger] spans[j]).1 <= (#[trigger] spans[k]).0
        }),
{
    spans_from_are_places(buf, 0);
}

/// A member that is not a root never speaks.
pub proof fn only_a_root_speaks(idx: int, step_type: int, payload: Seq<u8>)
    ensures
        line_of(idx, step_type, payload, false) matches Some(l) ==> l.message is None,
{
}

/// A conversation with a parent is its child and carries no title; one without is a root.
pub proof fn a_parent_makes_an_untitled_child(
    file: FoundFile,
    metadata: Option<Seq<u8>>,
    summary: Option<Summary>,
)
    ensures
        ({
            let m = member_of(file, metadata, summary);
            &&& m.kind is Child <==> m.parent_source_member_id is Some
            &&& m.kind is Root <==> m.parent_source_member_id is None
            &&& m.kind is Child ==> m.native_title is None && m.first_user_text is None
                && m.first_agent_text is None
        }),
{
}

/// Steps that are added later only add to what was read: the messages so far stay, in order.
pub proof fn later_steps_only_add(rows: Seq<StepRow>, more: Seq<StepRow>, is_root: bool)
    ensures
        read_of(rows, is_root).0.is_prefix_of(read_of(rows + more, is_root).0),
    decreases more.len(),
{
    if more.len() == 0 {
        assert(rows + more =~= rows);
    } else {
        later_steps_only_add(rows, more.drop_last(), is_root);
        assert((rows + more).drop_last() =~= rows + more.drop_last());
    }
}

// ---------------------------------------------------------------------------
// Discovery among files
// ---------------------------------------------------------------------------

/// Where conversations stand: in `conversations` under a root; beside it, where the root is itself
/// the database of a conversation.
pub open spec fn conversations_under(
    root: FoundDir,
    parent: Option<Seq<char>>,
    files: Seq<Seq<char>>,
    dirs: Seq<Seq<char>>,
) -> Option<Seq<char>> {
    if files.contains(root.path@) && extension_of(root.name@) == Some("db"@) {
        parent
    } else if dirs.contains(child_of(root.path@, "conversations"@)) {
        Some(child_of(root.path@, "conversations"@))
    } else {
        None
    }
}

/// Where conversations stand. `parent` is the directory that the root stands in; `files` and
/// `dirs` are the files and the directories that there are.
pub fn conversations_dir(
    root: &FoundDir,
    parent: &Option<String>,
    files: &Vec<String>,
    dirs: &Vec<String>,
) -> (r: Option<String>)
    ensures
        r.deep_view() == conversations_under(
            *root,
            parent.deep_view(),
            texts(files@),
            texts(dirs@),
        ),
{
    let database: bool = match extension(root.name.as_str()) {
        Some(e) => same(e.as_str(), "db"),
        None => false,
    };
    if database && is_listed(files, root.path.as_str()) {
        return copy_text(parent);
    }
    let candidate = child_path(root.path.as_str(), "conversations");
    if is_listed(dirs, candidate.as_str()) {
        Some(candidate)
    } else {
        None
    }
}

/// The conversations among the files of a directory, in order.
pub fn conversation_files(names: &Vec<String>) -> (r: Vec<String>)
    ensures
        ascending(texts(r@)),
        texts(r@).to_set() == with_extension(texts(names@), "db"@),
{
    named_with(names, "db")
}

/// A conversation: its file, its own metadata, and what the list of conversations says of it.
pub struct Conversation {
    pub file: FoundFile,
    pub metadata: Option<Vec<u8>>,
    pub summary: Option<Summary>,
}

/// The member that discovery finds in a conversation.
pub open spec fn discovered(c: Conversation) -> Option<Member> {
    if conversation_id(stem_of(c.file.name@)) {
        Some(member_of(c.file, bytes_where(c.metadata), c.summary))
    } else {
        None
    }
}

/// The members among conversations, in order, but for those at the paths that did not change.
pub open spec fn members_among(
    conversations: Seq<Conversation>,
    unchanged: Seq<Seq<char>>,
) -> Seq<Member>
    decreases conversations.len(),
{
    if conversations.len() == 0 {
        Seq::empty()
    } else {
        let before = members_among(conversations.drop_last(), unchanged);
        if unchanged.contains(conversations.last().file.path@) {
            before
        } else {
            match discovered(conversations.last()) {
                Some(m) => before.push(m),
                None => before,
            }
        }
    }
}

impl AntigravityAdapter {
    /// The members among conversations, but for those at the paths that did not change.
    pub fn discover_members_in(
        conversations: &Vec<Conversation>,
        unchanged: &Vec<String>,
    ) -> (r: Vec<DiscoveredMember>)
        ensures
            r.deep_view() == members_among(conversations@, texts(unchanged@)),
    {
        let ghost known = texts(unchanged@);
        let mut out: Vec<DiscoveredMember> = Vec::new();
        let mut i: usize = 0;
        assert(conversations@.take(0) =~= Seq::<Conversation>::empty());
        assert(out.deep_view() =~= members_among(conversations@.take(0), known));
        while i < conversations.len()
            invariant
                i <= conversations@.len(),
                known == texts(unchanged@),
                out.deep_view() == members_among(conversations@.take(i as int), known),
            decreases conversations@.len() - i,
        {
            assert(conversations@.take(i + 1).drop_last() =~= conversations@.take(i as int));
            assert(conversations@.take(i + 1).last() == conversations@[i as int]);
            let c = &conversations[i];
            if !is_listed(unchanged, c.file.path.as_str()) {
                match AntigravityAdapter::parse_member(&c.file, &c.metadata, &c.summary) {
                    Some(m) => {
                        let ghost before = out.deep_view();
                        out.push(m);
                        assert(out.deep_view() =~= before.push(m.deep_view()));
                    },
                    None => {},
                }
            }
            i = i + 1;
        }
        assert(conversations@.take(i as int) =~= conversations@);
        out
    }
}

/// Whatever the conversations hold, no member of another agent is found among them.
pub proof fn no_other_agent_is_found(conversations: Seq<Conversation>, unchanged: Seq<Seq<char>>)
    ensures
        forall|k: int|
            0 <= k < members_among(conversations, unchanged).len() ==> (#[trigger] members_among(
                conversations,
                unchanged,
            )[k]).agent == Agent::Antigravity,
    decreases conversations.len(),
{
    if conversations.len() > 0 {
        no_other_agent_is_found(conversations.drop_last(), unchanged);
        let before = members_among(conversations.drop_last(), unchanged);
        let all = members_among(conversations, unchanged);
        assert forall|k: int| 0 <= k < all.len() implies (#[trigger] all[k]).agent
            == Agent::Antigravity by {
            if k < before.len() {
                assert(all[k] == before[k]);
            }
        }
    }
}

// ---------------------------------------------------------------------------
// What a conversation says
// ---------------------------------------------------------------------------

/// A number below 128 is one byte; a byte with its high bit set adds its lower seven bits, and the
/// next byte counts 128 times as much. A number whose last byte is missing is none.
pub proof fn how_a_number_is_written(buf: Seq<u8>, i: int)
    requires
        0 <= i < buf.len(),
    ensures
        buf[i] < 128 ==> varint_at(buf, i, 0, 0) == Some((buf[i] as u64, i + 1)),
        buf[i] >= 128 && i + 1 == buf.len() ==> varint_at(buf, i, 0, 0) is None,
        buf[i] >= 128 && i + 1 < buf.len() && buf[i + 1] < 128 ==> (varint_at(
            buf,
            i,
            0,
            0,
        ) matches Some((v, end)) && v == (buf[i] - 128) + 128 * buf[i + 1] && end == i + 2),
{
    reveal_with_fuel(varint_at, 3);
    let a = buf[i];
    assert(a < 128u8 ==> a & 0x80 == 0 && 0u64 | (((a & 0x7f) as u64) << 0u32) == a as u64)
        by (bit_vector);
    assert(a >= 128u8 ==> a & 0x80 != 0 && 0u64 | (((a & 0x7f) as u64) << 0u32) == (a - 128) as u64)
        by (bit_vector);
    if i + 1 < buf.len() {
        let b = buf[i + 1];
        assert(a >= 128u8 && b < 128u8 ==> b & 0x80 == 0 && ((a - 128) as u64) | (((b & 0x7f)
            as u64) << 7u32) == (a - 128) + 128 * b) by (bit_vector);
    }
}

/// Field `k` is the first number of a field number.
pub open spec fn first_number(fields: Seq<(u32, Wire)>, number: u32, k: int, v: u64) -> bool {
    &&& 0 <= k < fields.len()
    &&& fields[k] == (number, Wire::Varint(v))
    &&& forall|j: int|
        0 <= j < k ==> !((#[trigger] fields[j]).0 == number && fields[j].1 is Varint)
}

/// Field `k` is the first of a field number that holds any bytes.
pub open spec fn first_filled(fields: Seq<(u32, Wire)>, number: u32, k: int, b: Seq<u8>) -> bool {
    &&& 0 <= k < fields.len()
    &&& fields[k] == (number, Wire::Bytes(b))
    &&& b.len() > 0
    &&& forall|j: int| 0 <= j < k ==> !is_filled(#[trigger] fields[j], number)
}

/// The field has this number and holds any bytes.
pub open spec fn is_filled(field: (u32, Wire), number: u32) -> bool {
    field.0 == number && (field.1 matches Wire::Bytes(b) && b.len() > 0)
}

/// The first field of a number counts; there is nothing where no field has it.
pub proof fn the_first_field_counts(fields: Seq<(u32, Wire)>, number: u32)
    ensures
        forall|k: int, v: u64|
            #[trigger] first_number(fields, number, k, v) ==> first_varint(fields, number) == Some(
                v,
            ),
        (forall|j: int|
            0 <= j < fields.len() ==> !((#[trigger] fields[j]).0 == number && fields[j].1 is Varint))
            ==> first_varint(fields, number) is None,
        forall|k: int, b: Seq<u8>|
            #[trigger] first_filled(fields, number, k, b) ==> first_bytes(fields, number) == Some(
                b,
            ),
        (forall|j: int| 0 <= j < fields.len() ==> !is_filled(#[trigger] fields[j], number))
            ==> first_bytes(fields, number) is None,
    decreases fields.len(),
{
    if fields.len() > 0 {
        let rest = fields.drop_first();
        the_first_field_counts(rest, number);
        assert forall|k: int, v: u64| #[trigger]
            first_number(fields, number, k, v) implies first_varint(fields, number) == Some(v) by {
            if k > 0 {
                assert(!(fields[0].0 == number && fields[0].1 is Varint));
                assert forall|j: int| 0 <= j < k - 1 implies !((#[trigger] rest[j]).0 == number
                    && rest[j].1 is Varint) by {
                    assert(rest[j] == fields[j + 1]);
                }
                assert(rest[k - 1] == fields[k]);
                assert(first_number(rest, number, k - 1, v));
            }
        }
        assert forall|k: int, b: Seq<u8>| #[trigger]
            first_filled(fields, number, k, b) implies first_bytes(fields, number) == Some(b) by {
            if k > 0 {
                assert(!is_filled(fields[0], number));
                assert forall|j: int| 0 <= j < k - 1 implies !is_filled(
                    #[trigger] rest[j],
                    number,
                ) by {
                    assert(rest[j] == fields[j + 1]);
                }
                assert(rest[k - 1] == fields[k]);
                assert(first_filled(rest, number, k - 1, b));
            }
        }
        if forall|j: int|
            0 <= j < fields.len() ==> !((#[trigger] fields[j]).0 == number
                && fields[j].1 is Varint) {
            assert(!(fields[0].0 == number && fields[0].1 is Varint));
            assert forall|j: int| 0 <= j < rest.len() implies !((#[trigger] rest[j]).0 == number
                && rest[j].1 is Varint) by {
                assert(rest[j] == fields[j + 1]);
            }
        }
        if forall|j: int| 0 <= j < fields.len() ==> !is_filled(#[trigger] fields[j], number) {
            assert(!is_filled(fields[0], number));
            assert forall|j: int| 0 <= j < rest.len() implies !is_filled(
                #[trigger] rest[j],
                number,
            ) by {
                assert(rest[j] == fields[j + 1]);
            }
        }
    }
}

/// The text in a field is the text of its bytes, where they are one; a solid one is not blank.
pub proof fn the_text_of_a_field(buf: Seq<u8>, number: u32)
    ensures
        message_in(buf, number) == first_bytes(fields_of(buf), number),
        message_in(buf, number) is None ==> text_in(buf, number) is None,
        message_in(buf, number) matches Some(b) ==> {
            &&& valid_utf8(b) ==> text_in(buf, number) == Some(decode_utf8(b))
            &&& !valid_utf8(b) ==> text_in(buf, number) is None
        },
        text_in(buf, number) is None ==> solid_text_in(buf, number) is None,
        text_in(buf, number) matches Some(s) ==> {
            &&& blank(s) ==> solid_text_in(buf, number) is None
            &&& !blank(s) ==> solid_text_in(buf, number) == Some(s)
        },
{
}

/// A step was made when its envelope says, in whole seconds.
pub proof fn when_a_step_was_made(payload: Seq<u8>, secs: i64)
    ensures
        i64::MIN <= secs * 1000 <= i64::MAX ==> time_of_seconds(secs) == rfc3339_of_millis(
            (secs * 1000) as i64,
        ),
        !(i64::MIN <= secs * 1000 <= i64::MAX) ==> time_of_seconds(secs) is None,
        message_in(payload, 5) is None ==> step_time(payload) is None,
        message_in(payload, 5) matches Some(envelope) ==> {
            &&& message_in(envelope, 1) is None ==> step_time(payload) is None
            &&& message_in(envelope, 1) matches Some(ts) ==> {
                &&& first_varint(fields_of(ts), 1) is None ==> step_time(payload) is None
                &&& first_varint(fields_of(ts), 1) matches Some(s) ==> step_time(payload)
                    == time_of_seconds(s as i64)
            }
        },
{
}

/// What the person typed stands in the turn itself, or else in its message; without white space
/// around it.
pub proof fn what_was_typed(payload: Seq<u8>)
    ensures
        message_in(payload, 19) is None ==> typed(payload) is None,
        message_in(payload, 19) matches Some(turn) ==> {
            &&& solid_text_in(turn, 2) matches Some(s) ==> typed(payload) == Some(trimmed(s))
            &&& solid_text_in(turn, 2) is None ==> {
                &&& message_in(turn, 3) is None ==> typed(payload) is None
                &&& message_in(turn, 3) matches Some(m) ==> {
                    &&& solid_text_in(m, 1) matches Some(s) ==> typed(payload) == Some(trimmed(s))
                    &&& solid_text_in(m, 1) is None ==> typed(payload) is None
                }
            }
        },
{
}

/// A part of an agent turn speaks by its visible text, and is a tool call where it holds one; no
/// other field does either.
pub proof fn one_more_part(fields: Seq<(u32, Wire)>, field: (u32, Wire))
    ensures
        turn_prose(Seq::empty()) == Seq::<Seq<char>>::empty(),
        turn_calls(Seq::empty()) == 0,
        field.0 != 20 || field.1 is Varint ==> turn_prose(fields.push(field)) == turn_prose(fields)
            && turn_calls(fields.push(field)) == turn_calls(fields),
        field.0 == 20 ==> (field.1 matches Wire::Bytes(part) ==> {
            &&& solid_text_in(part, 3) is None ==> turn_prose(fields.push(field)) == turn_prose(
                fields,
            )
            &&& solid_text_in(part, 3) matches Some(t) ==> turn_prose(fields.push(field))
                == turn_prose(fields).push(t)
            &&& message_in(part, 7) is None ==> turn_calls(fields.push(field)) == turn_calls(fields)
            &&& message_in(part, 7) is Some ==> turn_calls(fields.push(field)) == turn_calls(fields)
                + 1
        }),
{
    assert(fields.push(field).drop_last() =~= fields);
}

/// The message says this in this role, as the step of its number and at its time.
pub open spec fn says_as(
    m: Message,
    idx: int,
    role: SessionMessageRole,
    text: Seq<char>,
    payload: Seq<u8>,
) -> bool {
    &&& m.source_message_id == Some("step:"@ + signed_decimal(idx))
    &&& m.source_position == "step:"@ + signed_decimal(idx)
    &&& m.ts == step_time(payload)
    &&& m.role == role
    &&& m.content == text
    &&& m.provider is None
    &&& m.model is None
}

/// A step of a root is what the person typed or what the agent says; a tool call and an error are
/// counted whoever's step it is, and no other step brings anything.
pub proof fn what_a_step_brings(idx: int, step_type: int, payload: Seq<u8>, is_root: bool)
    ensures
        step_type == 14 && is_root ==> {
            &&& typed(payload) is None ==> line_of(idx, step_type, payload, is_root) is None
            &&& typed(payload) matches Some(text) ==> (line_of(
                idx,
                step_type,
                payload,
                is_root,
            ) matches Some(l) && l.observation == MemberObservation::nothing() && (
            l.message matches Some(m) && says_as(
                m,
                idx,
                SessionMessageRole::User,
                text,
                payload,
            )))
        },
        step_type == 15 && is_root ==> (line_of(idx, step_type, payload, is_root) matches Some(l)
            && {
            let text = trimmed(joined(turn_prose(fields_of(payload)), "\n\n"@));
            &&& l.observation.tool_calls == turn_calls(fields_of(payload)) as u64
            &&& l.observation.tool_errors == 0
            &&& l.observation.compactions == 0
            &&& l.observation.side_activity == 0
            &&& text.len() == 0 ==> l.message is None
            &&& text.len() > 0 ==> (l.message matches Some(m) && says_as(
                m,
                idx,
                SessionMessageRole::Assistant,
                text,
                payload,
            ))
        }),
        step_type == 132 ==> (line_of(idx, step_type, payload, is_root) matches Some(l)
            && l.message is None && l.observation.tool_calls == 1 && l.observation.tool_errors == 0
            && l.observation.compactions == 0 && l.observation.side_activity == 0),
        step_type == 17 ==> (line_of(idx, step_type, payload, is_root) matches Some(l)
            && l.message is None && l.observation.tool_calls == 0 && l.observation.tool_errors == 1
            && l.observation.compactions == 0 && l.observation.side_activity == 0),
        step_type != 132 && step_type != 17 && !(is_root && (step_type == 14 || step_type == 15))
            ==> line_of(idx, step_type, payload, is_root) is None,
{
}

/// Each step adds its message, if that says anything, and its counts, in the order of the steps.
pub proof fn one_more_step(rows: Seq<StepRow>, row: StepRow, is_root: bool)
    ensures
        read_of(Seq::empty(), is_root).0 == Seq::<Message>::empty(),
        read_of(Seq::empty(), is_root).1 == MemberObservation::nothing(),
        ({
            let was = read_of(rows, is_root);
            let is = read_of(rows.push(row), is_root);
            match line_of(row.idx as int, row.step_type as int, row.payload@, is_root) {
                None => is == was,
                Some(l) => {
                    &&& is.1 == was.1.plus(l.observation)
                    &&& l.message is None ==> is.0 == was.0
                    &&& l.message matches Some(m) ==> {
                        &&& blank(m.content) ==> is.0 == was.0
                        &&& !blank(m.content) ==> is.0 == was.0.push(m)
                    }
                },
            }
        }),
{
    assert(rows.push(row).drop_last() =~= rows);
}

/// A conversation is known by its file and by what its own metadata and the list of conversations
/// say; the list counts before its own metadata, a title before a preview.
pub proof fn what_is_found_of_a_conversation(
    file: FoundFile,
    metadata: Option<Seq<u8>>,
    summary: Option<Summary>,
    list: Option<Tree>,
)
    ensures
        ({
            let m = member_with(file, metadata, summary, list);
            let has_parent = summary matches Some(s) && (s.parent_conversation_id matches Some(p)
                && p@.len() > 0);
            &&& m.agent == Agent::Antigravity
            &&& m.source_member_id == stem_of(file.name@)
            &&& m.source_path == file.path@
            &&& m.source_kind == "antigravity_conversation"@
            &&& m.kind is Child <==> has_parent
            &&& m.kind is Root <==> !has_parent
            &&& !has_parent ==> m.parent_source_member_id is None
            &&& has_parent ==> (summary matches Some(s) ==> (
            s.parent_conversation_id matches Some(p) ==> m.parent_source_member_id == Some(p@)))
            &&& m.root_hint is None
            &&& file.modified is None ==> m.last_activity_at is None
            &&& file.modified matches Some(t) ==> m.last_activity_at == Some(t@)
            &&& m.started_at == start_of(metadata)
            &&& first_workspace(list) is Some ==> m.cwd == directory_of(first_workspace(list))
            &&& first_workspace(list) is None ==> m.cwd == directory_of(own_workspace(metadata))
            &&& has_parent || summary is None ==> m.native_title is None
            &&& !has_parent ==> (summary matches Some(s) ==> {
                &&& !blank(s.title@) ==> m.native_title == Some(trimmed(s.title@))
                &&& blank(s.title@) && !blank(s.preview@) ==> m.native_title == Some(
                    trimmed(s.preview@),
                )
                &&& blank(s.title@) && blank(s.preview@) ==> m.native_title is None
            })
            &&& m.first_user_text is None
            &&& m.first_agent_text is None
        }),
        summary is None ==> member_of(file, metadata, summary) == member_with(
            file,
            metadata,
            summary,
            None,
        ),
        summary matches Some(s) ==> member_of(file, metadata, summary) == member_with(
            file,
            metadata,
            summary,
            parsed(s.workspace_uris@),
        ),
{
}

/// The directory of a workspace is its path, without the scheme of a file; the first workspace of a
/// list counts.
pub proof fn where_a_workspace_is(u: Seq<char>, items: Seq<Tree>, metadata: Seq<u8>)
    ensures
        directory_of(None) is None,
        !starts(u, "file://"@) && u.len() > 0 ==> directory_of(Some(u)) == Some(u),
        u.len() > 0 ==> directory_of(Some("file://"@ + u)) == Some(u),
        directory_of(Some(Seq::empty())) is None,
        first_workspace(None) is None,
        items.len() == 0 ==> first_workspace(Some(Tree::List(items))) is None,
        items.len() > 0 ==> first_workspace(Some(Tree::List(items))) == items[0].text(),
        own_workspace(None) is None,
        message_in(metadata, 1) is None ==> own_workspace(Some(metadata)) is None,
        message_in(metadata, 1) matches Some(w) ==> own_workspace(Some(metadata)) == text_in(w, 1),
        start_of(None) is None,
        message_in(metadata, 2) is None ==> start_of(Some(metadata)) is None,
        message_in(metadata, 2) matches Some(ts) ==> start_of(Some(metadata)) == time_in(ts),
{
    reveal_strlit("file://");
    let s = "file://"@ + u;
    assert(s.take(7) =~= "file://"@);
    assert(s.skip(7) =~= u);
}

/// A conversation is a database that is named by hexadecimal digits and dashes.
pub proof fn which_files_are_conversations(c: Conversation)
    ensures
        discovered(c) is Some <==> forall|i: int|
            0 <= i < stem_of(c.file.name@).len() ==> is_hex_or_dash(
                #[trigger] stem_of(c.file.name@)[i],
            ),
        discovered(c) matches Some(m) ==> m == member_of(
            c.file,
            bytes_where(c.metadata),
            c.summary,
        ),
{
    let id = stem_of(c.file.name@);
    assert forall|i: int| 0 <= i < id.len() implies (id_char(#[trigger] id[i]) <==> is_hex_or_dash(
        id[i],
    )) by {}
    if discovered(c) is Some {
        assert forall|i: int| 0 <= i < id.len() implies is_hex_or_dash(#[trigger] id[i]) by {
            assert(id_char(id[i]));
        }
    }
    if forall|i: int| 0 <= i < id.len() ==> is_hex_or_dash(#[trigger] id[i]) {
        assert forall|i: int| 0 <= i < id.len() implies id_char(#[trigger] id[i]) by {
            assert(is_hex_or_dash(id[i]));
        }
    }
}

/// A hexadecimal digit or a dash.
pub open spec fn is_hex_or_dash(c: char) -> bool {
    c == '-' || ('0' <= c && c <= '9') || ('a' <= c && c <= 'f') || ('A' <= c && c <= 'F')
}

/// Each conversation is found in its order, but for those at a path that did not change.
pub proof fn each_conversation_is_found(
    conversations: Seq<Conversation>,
    c: Conversation,
    unchanged: Seq<Seq<char>>,
)
    ensures
        members_among(Seq::empty(), unchanged) == Seq::<Member>::empty(),
        unchanged.contains(c.file.path@) || discovered(c) is None ==> members_among(
            conversations.push(c),
            unchanged,
        ) == members_among(conversations, unchanged),
        !unchanged.contains(c.file.path@) ==> (discovered(c) matches Some(m) ==> members_among(
            conversations.push(c),
            unchanged,
        ) == members_among(conversations, unchanged).push(m)),
{
    assert(conversations.push(c).drop_last() =~= conversations);
}

/// Conversations stand in the `conversations` of a root, or beside a root that is itself a
/// conversation's database.
pub proof fn where_conversations_stand(
    root: FoundDir,
    parent: Option<Seq<char>>,
    files: Seq<Seq<char>>,
    dirs: Seq<Seq<char>>,
)
    ensures
        ({
            let is_db = files.contains(root.path@) && extension_of(root.name@) == Some("db"@);
            let below = child_of(root.path@, "conversations"@);
            &&& is_db ==> conversations_under(root, parent, files, dirs) == parent
            &&& !is_db && dirs.contains(below) ==> conversations_under(root, parent, files, dirs)
                == Some(below)
            &&& !is_db && !dirs.contains(below) ==> conversations_under(
                root,
                parent,
                files,
                dirs,
            ) is None
        }),
{
}

/// A tag is eight times the number of a field and how it is written: as a number, or as so many
/// bytes. Fields of eight or four bytes are passed over; nothing else is a field, and neither is
/// one whose value is not all there.
pub proof fn what_a_field_is(buf: Seq<u8>, i: int, tag: u64, at: int)
    requires
        varint_at(buf, i, 0, 0) == Some((tag, at)),
    ensures
        tag % 8 == 0 ==> {
            &&& varint_at(buf, at, 0, 0) is None ==> field_at(buf, i) is None
            &&& varint_at(buf, at, 0, 0) matches Some((v, end)) ==> field_at(buf, i) == Some(
                (Some(((tag / 8) as u32, Wire::Varint(v))), end),
            )
        },
        tag % 8 == 2 ==> {
            &&& varint_at(buf, at, 0, 0) is None ==> field_at(buf, i) is None
            &&& varint_at(buf, at, 0, 0) matches Some((len, from)) ==> {
                &&& from + len > buf.len() ==> field_at(buf, i) is None
                &&& from + len <= buf.len() ==> field_at(buf, i) == Some(
                    (
                        Some(((tag / 8) as u32, Wire::Bytes(buf.subrange(from, from + len)))),
                        from + len,
                    ),
                )
            }
        },
        tag % 8 == 1 ==> field_at(buf, i) == Some((None::<(u32, Wire)>, at + 8)),
        tag % 8 == 5 ==> field_at(buf, i) == Some((None::<(u32, Wire)>, at + 4)),
        tag % 8 == 3 || tag % 8 == 4 || tag % 8 > 5 ==> field_at(buf, i) is None,
{
    assert(tag & 7 == tag % 8) by (bit_vector);
    assert(tag >> 3u64 == tag / 8) by (bit_vector);
}

/// The fields of a message are read one after the other, up to the first bytes that are none.
pub proof fn fields_follow_each_other(buf: Seq<u8>, i: int)
    requires
        0 <= i,
    ensures
        i >= buf.len() ==> fields_from(buf, i).len() == 0,
        fields_of(buf) == fields_from(buf, 0),
        i < buf.len() ==> {
            &&& field_at(buf, i) is None ==> fields_from(buf, i).len() == 0
            &&& field_at(buf, i) matches Some((f, next)) ==> {
                &&& f is None ==> fields_from(buf, i) == fields_from(buf, next)
                &&& f matches Some(field) ==> fields_from(buf, i) == seq![field] + fields_from(
                    buf,
                    next,
                )
            }
        },
{
}

} // verus!
