//! What holds of incremental reads as a whole.
use crate::adapters::events::{events_of_lines, read_events, EventFormat};
use crate::adapters::reader::{
    complete_part, delta_of, line_start, progress, read_lines, read_plan, Delta, LineFormat,
    Progress, Provenance, ReadPlan, SourceFile, StatsCapabilities,
};
use crate::bytes::{byte_len, byte_len_adds, lossy_text};
use crate::domain::SessionMemberCursor;
use crate::text::{index_of, index_of_bound, raw_lines_of, starts};
use vstd::prelude::*;
use vstd::utf8::{encode_scalar, encode_utf8};

verus! {

/// Nothing, or text whose last line has its end.
pub open spec fn whole_lines(s: Seq<char>) -> bool {
    s.len() == 0 || s.last() == '\n'
}

proof fn complete_part_facts(s: Seq<char>)
    ensures
        complete_part(s).len() <= s.len(),
        complete_part(s) == s.take(complete_part(s).len() as int),
        whole_lines(complete_part(s)),
        forall|i: int| complete_part(s).len() <= i < s.len() ==> s[i] != '\n',
    decreases s.len(),
{
    if s.len() == 0 || s.last() == '\n' {
        assert(s.take(s.len() as int) =~= s);
    } else {
        complete_part_facts(s.drop_last());
        let c = complete_part(s.drop_last());
        assert(s.drop_last().take(c.len() as int) =~= s.take(c.len() as int));
        assert forall|i: int| complete_part(s).len() <= i < s.len() implies s[i] != '\n' by {
            if i < s.len() - 1 {
                assert(s.drop_last()[i] == s[i]);
            }
        }
    }
}

proof fn newline_is_one_byte()
    ensures
        byte_len(seq!['\n']) == 1,
{
    let s = seq!['\n'];
    assert(s.drop_first() =~= Seq::<char>::empty());
    assert(encode_utf8(s.drop_first()).len() == 0);
    assert(encode_utf8(s) =~= encode_scalar(s[0] as u32) + encode_utf8(s.drop_first()));
    assert(('\n' as u32) == 10);
}

/// The first line end of `a + b` is that of `a`, where `a` has one.
proof fn index_of_prefix(a: Seq<char>, b: Seq<char>, c: char)
    requires
        a.contains(c),
    ensures
        index_of(a + b, c) == index_of(a, c) < a.len(),
    decreases a.len(),
{
    assert((a + b)[0] == a[0]);
    if a[0] != c {
        let i = choose|i: int| 0 <= i < a.len() && a[i] == c;
        assert(a.drop_first()[i - 1] == c);
        assert((a + b).drop_first() =~= a.drop_first() + b);
        index_of_prefix(a.drop_first(), b, c);
    }
}

/// The lines of whole lines and what follows them are the lines of either.
pub proof fn lines_split_at_a_line_end(a: Seq<char>, b: Seq<char>)
    requires
        whole_lines(a),
    ensures
        raw_lines_of(a + b) == raw_lines_of(a) + raw_lines_of(b),
    decreases a.len(),
{
    if a.len() == 0 {
        assert(a + b =~= b);
        assert(raw_lines_of(a) + raw_lines_of(b) =~= raw_lines_of(b));
    } else {
        assert(a.contains('\n')) by {
            assert(a[a.len() - 1] == '\n');
        }
        index_of_prefix(a, b, '\n');
        let n = index_of(a, '\n') as int;
        index_of_bound(a, '\n');
        let rest = a.skip(n + 1);
        assert((a + b).take(n) =~= a.take(n));
        assert((a + b).skip(n + 1) =~= rest + b);
        assert(whole_lines(rest)) by {
            if rest.len() > 0 {
                assert(rest.last() == a.last());
            }
        }
        lines_split_at_a_line_end(rest, b);
        let l = a.take(n);
        assert(raw_lines_of(a + b) == seq![l] + raw_lines_of(rest + b));
        assert(seq![l] + (raw_lines_of(rest) + raw_lines_of(b)) =~= (seq![l] + raw_lines_of(rest))
            + raw_lines_of(b));
    }
}

proof fn line_start_shift(x: Seq<char>, rest: Seq<Seq<char>>, i: int)
    requires
        1 <= i <= rest.len() + 1,
    ensures
        line_start(seq![x] + rest, i) == byte_len(x) + 1 + line_start(rest, i - 1),
    decreases i,
{
    let ls = seq![x] + rest;
    if i > 1 {
        line_start_shift(x, rest, i - 1);
        assert(ls[i - 1] == rest[i - 2]);
    } else {
        assert(ls[0] == x);
        assert(line_start(ls, 0) == 0);
    }
}

proof fn line_start_prefix(a: Seq<Seq<char>>, b: Seq<Seq<char>>, i: int)
    requires
        0 <= i <= a.len(),
    ensures
        line_start(a + b, i) == line_start(a, i),
    decreases i,
{
    if i > 0 {
        line_start_prefix(a, b, i - 1);
        assert((a + b)[i - 1] == a[i - 1]);
    }
}

proof fn line_start_grows(ls: Seq<Seq<char>>, i: int, j: int)
    requires
        0 <= i < j,
    ensures
        line_start(ls, i) < line_start(ls, j),
    decreases j,
{
    if i < j - 1 {
        line_start_grows(ls, i, j - 1);
    }
}

/// Whole lines take as many bytes as their lines and line ends.
proof fn line_starts_reach_the_end(a: Seq<char>)
    requires
        whole_lines(a),
    ensures
        line_start(raw_lines_of(a), raw_lines_of(a).len() as int) == byte_len(a),
    decreases a.len(),
{
    if a.len() == 0 {
        assert(byte_len(a) == 0);
    } else {
        assert(a.contains('\n')) by {
            assert(a[a.len() - 1] == '\n');
        }
        index_of_prefix(a, Seq::empty(), '\n');
        assert(a + Seq::<char>::empty() =~= a);
        let n = index_of(a, '\n') as int;
        index_of_bound(a, '\n');
        let head = a.take(n);
        let rest = a.skip(n + 1);
        assert(whole_lines(rest)) by {
            if rest.len() > 0 {
                assert(rest.last() == a.last());
            }
        }
        line_starts_reach_the_end(rest);
        line_start_shift(head, raw_lines_of(rest), raw_lines_of(rest).len() as int + 1);
        newline_is_one_byte();
        byte_len_adds(head, seq!['\n']);
        byte_len_adds(head + seq!['\n'], rest);
        assert(head + seq!['\n'] + rest =~= a);
    }
}

/// A read that only meets lines it passes over, or lines before `n`, stops where `n` lines do.
proof fn progress_ignores_later_lines<F: LineFormat>(
    f: F,
    ls: Seq<Seq<char>>,
    from: int,
    end: int,
    state: Provenance,
    n: int,
    k: int,
)
    requires
        0 <= n <= k,
        line_start(ls, n) >= end,
    ensures
        progress(f, ls, from, end, state, k) == progress(f, ls, from, end, state, n),
    decreases k,
{
    if k > n {
        progress_ignores_later_lines(f, ls, from, end, state, n, k - 1);
        if k - 1 > n {
            line_start_grows(ls, n, k - 1);
        }
    }
}

/// Lines before `from` are passed over.
proof fn progress_skips_earlier_lines<F: LineFormat>(
    f: F,
    ls: Seq<Seq<char>>,
    from: int,
    end: int,
    state: Provenance,
    n: int,
)
    requires
        0 <= n,
        line_start(ls, n) <= from,
    ensures
        progress(f, ls, from, end, state, n) == Progress::start(state),
    decreases n,
{
    if n > 0 {
        line_start_grows(ls, n - 1, n);
        progress_skips_earlier_lines(f, ls, from, end, state, n - 1);
    }
}

/// The first lines bring the same whatever follows them.
proof fn progress_of_a_head<F: LineFormat>(
    f: F,
    a: Seq<Seq<char>>,
    b: Seq<Seq<char>>,
    from: int,
    end_a: int,
    end_b: int,
    state: Provenance,
    k: int,
)
    requires
        0 <= k <= a.len(),
        line_start(a, a.len() as int) <= end_a,
        line_start(a, a.len() as int) <= end_b,
    ensures
        progress(f, a, from, end_a, state, k) == progress(f, a + b, from, end_b, state, k),
    decreases k,
{
    if k > 0 {
        progress_of_a_head(f, a, b, from, end_a, end_b, state, k - 1);
        line_start_prefix(a, b, k - 1);
        line_start_grows(a, k - 1, a.len() as int);
        assert((a + b)[k - 1] == a[k - 1]);
    }
}

/// From line `n` on, a read of everything does what a read from there does, starting with what
/// the earlier lines brought.
proof fn progress_continues<F: LineFormat>(
    f: F,
    ls: Seq<Seq<char>>,
    from: int,
    end: int,
    state: Provenance,
    n: int,
    k: int,
)
    requires
        0 <= n <= k,
        line_start(ls, n) == from,
    ensures
        ({
            let first = progress(f, ls, 0, end, state, n);
            let second = progress(f, ls, from, end, first.state, k);
            let both = progress(f, ls, 0, end, state, k);
            &&& both.messages == first.messages + second.messages
            &&& both.observation == first.observation.plus(second.observation)
            &&& both.state == second.state
        }),
    decreases k,
{
    let first = progress(f, ls, 0, end, state, n);
    if k == n {
        progress_skips_earlier_lines(f, ls, from, end, first.state, n);
        assert(first.messages + Seq::empty() =~= first.messages);
    } else {
        progress_continues(f, ls, from, end, state, n, k - 1);
        if k - 1 > n {
            line_start_grows(ls, n, k - 1);
        }
        if k - 1 > 0 {
            line_start_grows(ls, 0, k - 1);
        }
        let second = progress(f, ls, from, end, first.state, k - 1);
        let both = progress(f, ls, 0, end, state, k - 1);
        assert(both.state == second.state);
        let second_next = progress(f, ls, from, end, first.state, k);
        let both_next = progress(f, ls, 0, end, state, k);
        assert(both_next.messages =~= first.messages + second_next.messages);
    }
}

proof fn consumed_is_within(c: Seq<char>, later: Seq<char>)
    requires
        whole_lines(c),
        starts(later, c),
    ensures
        byte_len(c) <= byte_len(complete_part(later)),
{
    complete_part_facts(later);
    let d = complete_part(later);
    if c.len() > 0 {
        assert(later[c.len() - 1] == c.last());
    }
    assert(d.len() >= c.len());
    assert(d =~= c + d.skip(c.len() as int));
    byte_len_adds(c, d.skip(c.len() as int));
}

/// Reading a source in two steps brings what reading it in one does: the messages of the first
/// read, then those of the lines that were appended since, each exactly once. The consumed part
/// is the complete lines of the first text, however they end.
pub proof fn an_append_brings_exactly_the_new_lines<F: LineFormat>(
    f: F,
    earlier: Seq<char>,
    later: Seq<char>,
    state: Provenance,
)
    requires
        starts(later, complete_part(earlier)),
    ensures
        ({
            let consumed = byte_len(complete_part(earlier)) as int;
            let first = read_lines(f, earlier, 0, state);
            let second = read_lines(f, later, consumed, first.state);
            let whole = read_lines(f, later, 0, state);
            &&& whole.messages == first.messages + second.messages
            &&& whole.observation == first.observation.plus(second.observation)
            &&& whole.state == second.state
        }),
{
    let c = complete_part(earlier);
    complete_part_facts(earlier);
    complete_part_facts(later);
    let tail = earlier.skip(c.len() as int);
    let more = later.skip(c.len() as int);
    assert(earlier =~= c + tail);
    assert(later =~= c + more);
    lines_split_at_a_line_end(c, tail);
    lines_split_at_a_line_end(c, more);
    line_starts_reach_the_end(c);
    let n = raw_lines_of(c).len() as int;
    let from = byte_len(c) as int;
    let end = byte_len(complete_part(later)) as int;
    consumed_is_within(c, later);
    line_start_prefix(raw_lines_of(c), raw_lines_of(tail), n);
    line_start_prefix(raw_lines_of(c), raw_lines_of(more), n);
    progress_ignores_later_lines(
        f,
        raw_lines_of(earlier),
        0,
        from,
        state,
        n,
        raw_lines_of(earlier).len() as int,
    );
    progress_of_a_head(f, raw_lines_of(c), raw_lines_of(tail), 0, from, from, state, n);
    progress_of_a_head(f, raw_lines_of(c), raw_lines_of(more), 0, from, end, state, n);
    let all = raw_lines_of(later);
    progress_continues(f, all, from, end, state, n, all.len() as int);
}

/// A line without its end is not read, however the lines before it end: a text brings what its
/// complete lines bring.
pub proof fn an_unfinished_line_waits<F: LineFormat>(
    f: F,
    text: Seq<char>,
    from: int,
    state: Provenance,
)
    ensures
        read_lines(f, text, from, state) == read_lines(f, complete_part(text), from, state),
{
    let c = complete_part(text);
    complete_part_facts(text);
    let tail = text.skip(c.len() as int);
    assert(text =~= c + tail);
    lines_split_at_a_line_end(c, tail);
    line_starts_reach_the_end(c);
    let n = raw_lines_of(c).len() as int;
    let end = byte_len(c) as int;
    line_start_prefix(raw_lines_of(c), raw_lines_of(tail), n);
    progress_ignores_later_lines(
        f,
        raw_lines_of(text),
        from,
        end,
        state,
        n,
        raw_lines_of(text).len() as int,
    );
    progress_of_a_head(f, raw_lines_of(c), raw_lines_of(tail), from, end, end, state, n);
}

proof fn events_ignore_later_lines<F: EventFormat>(
    f: F,
    ls: Seq<Seq<char>>,
    from: int,
    end: int,
    n: int,
    k: int,
)
    requires
        0 <= n <= k,
        line_start(ls, n) >= end,
    ensures
        events_of_lines(f, ls, from, end, k) == events_of_lines(f, ls, from, end, n),
    decreases k,
{
    if k > n {
        events_ignore_later_lines(f, ls, from, end, n, k - 1);
        if k - 1 > n {
            line_start_grows(ls, n, k - 1);
        }
    }
}

proof fn events_skip_earlier_lines<F: EventFormat>(
    f: F,
    ls: Seq<Seq<char>>,
    from: int,
    end: int,
    n: int,
)
    requires
        0 <= n,
        line_start(ls, n) <= from,
    ensures
        events_of_lines(f, ls, from, end, n).len() == 0,
    decreases n,
{
    if n > 0 {
        line_start_grows(ls, n - 1, n);
        events_skip_earlier_lines(f, ls, from, end, n - 1);
    }
}

proof fn events_of_a_head<F: EventFormat>(
    f: F,
    a: Seq<Seq<char>>,
    b: Seq<Seq<char>>,
    from: int,
    end_a: int,
    end_b: int,
    k: int,
)
    requires
        0 <= k <= a.len(),
        line_start(a, a.len() as int) <= end_a,
        line_start(a, a.len() as int) <= end_b,
    ensures
        events_of_lines(f, a, from, end_a, k) == events_of_lines(f, a + b, from, end_b, k),
    decreases k,
{
    if k > 0 {
        events_of_a_head(f, a, b, from, end_a, end_b, k - 1);
        line_start_prefix(a, b, k - 1);
        line_start_grows(a, k - 1, a.len() as int);
        assert((a + b)[k - 1] == a[k - 1]);
    }
}

proof fn events_continue<F: EventFormat>(
    f: F,
    ls: Seq<Seq<char>>,
    from: int,
    end: int,
    n: int,
    k: int,
)
    requires
        0 <= n <= k,
        line_start(ls, n) == from,
    ensures
        events_of_lines(f, ls, 0, end, k) == events_of_lines(f, ls, 0, end, n) + events_of_lines(
            f,
            ls,
            from,
            end,
            k,
        ),
    decreases k,
{
    let first = events_of_lines(f, ls, 0, end, n);
    if k == n {
        events_skip_earlier_lines(f, ls, from, end, n);
        assert(first + events_of_lines(f, ls, from, end, k) =~= first);
    } else {
        events_continue(f, ls, from, end, n, k - 1);
        if k - 1 > n {
            line_start_grows(ls, n, k - 1);
        }
        if k - 1 > 0 {
            line_start_grows(ls, 0, k - 1);
        }
        assert(events_of_lines(f, ls, 0, end, k) =~= first + events_of_lines(f, ls, from, end, k));
    }
}

/// The events of a text in two steps are those of one: the events of the first read, then those
/// of the lines that were appended since. A line without its end brings none.
pub proof fn an_append_brings_exactly_the_new_events<F: EventFormat>(
    f: F,
    earlier: Seq<char>,
    later: Seq<char>,
)
    requires
        starts(later, complete_part(earlier)),
    ensures
        read_events(f, later, 0) == read_events(f, earlier, 0) + read_events(
            f,
            later,
            byte_len(complete_part(earlier)) as int,
        ),
        read_events(f, earlier, 0) == read_events(f, complete_part(earlier), 0),
{
    let c = complete_part(earlier);
    complete_part_facts(earlier);
    complete_part_facts(later);
    let tail = earlier.skip(c.len() as int);
    let more = later.skip(c.len() as int);
    assert(earlier =~= c + tail);
    assert(later =~= c + more);
    lines_split_at_a_line_end(c, tail);
    lines_split_at_a_line_end(c, more);
    line_starts_reach_the_end(c);
    let n = raw_lines_of(c).len() as int;
    let from = byte_len(c) as int;
    let end = byte_len(complete_part(later)) as int;
    consumed_is_within(c, later);
    line_start_prefix(raw_lines_of(c), raw_lines_of(tail), n);
    line_start_prefix(raw_lines_of(c), raw_lines_of(more), n);
    events_ignore_later_lines(
        f,
        raw_lines_of(earlier),
        0,
        from,
        n,
        raw_lines_of(earlier).len() as int,
    );
    events_of_a_head(f, raw_lines_of(c), raw_lines_of(tail), 0, from, from, n);
    events_of_a_head(f, raw_lines_of(c), raw_lines_of(more), 0, from, end, n);
    events_continue(f, raw_lines_of(later), from, end, n, raw_lines_of(later).len() as int);
}

/// The cursor that a read leaves behind.
pub open spec fn follows(cursor: SessionMemberCursor, d: Delta) -> bool {
    &&& d.source matches Some(s) && {
        &&& cursor.source_file_identity@ == s.file_identity
        &&& cursor.generation == s.generation
        &&& cursor.byte_offset == s.byte_offset
        &&& cursor.last_seen_size == s.last_seen_size
        &&& cursor.mtime == s.mtime
        &&& cursor.prefix_hash@ == s.prefix_hash
    }
}

/// Reading a file again that has not changed since the last read brings nothing and leaves the
/// cursor where it is.
pub proof fn an_unchanged_source_brings_nothing<F: LineFormat>(
    f: F,
    file: SourceFile,
    before: SessionMemberCursor,
    after: SessionMemberCursor,
    capabilities: StatsCapabilities,
    state: Provenance,
)
    requires
        file.identity@.len() > 0,
    ensures
        follows(after, delta_of(f, file, before, capabilities, state)) ==> ({
            let again = delta_of(f, file, after, capabilities, state);
            &&& again.messages.len() == 0
            &&& again.stats is None
            &&& again.next_active == state
            &&& follows(after, again)
        }),
{
}

/// A source that was already read never goes back to an earlier generation. It keeps its
/// generation exactly when nothing changed or lines were appended, and a new generation reads
/// from the beginning.
pub proof fn a_generation_never_goes_back<F: LineFormat>(
    f: F,
    file: SourceFile,
    cursor: SessionMemberCursor,
    capabilities: StatsCapabilities,
    state: Provenance,
)
    requires
        !cursor.fresh(),
    ensures
        ({
            let s = delta_of(f, file, cursor, capabilities, state).source->0;
            &&& s.generation == cursor.generation || s.generation == cursor.generation + 1
            &&& s.generation == cursor.generation <==> !(read_plan(cursor, file) is Rescan)
            &&& s.generation == cursor.generation + 1 ==> s.start_byte_offset == 0
        }),
{
}

/// Lines that were appended to a source are read as an append: the same generation, from where
/// the last read stopped.
pub proof fn appended_lines_keep_the_generation<F: LineFormat>(
    f: F,
    earlier: SourceFile,
    later: SourceFile,
    before: SessionMemberCursor,
    after: SessionMemberCursor,
    capabilities: StatsCapabilities,
    state: Provenance,
)
    requires
        earlier.identity@.len() > 0,
        later.identity@ == earlier.identity@,
        later.data@.len() > earlier.data@.len(),
        after.prefix_hash@.len() > 0,
    ensures
        ({
            let c = complete_part(lossy_text(earlier.data@));
            &&& starts(lossy_text(later.data@), c)
            &&& byte_len(c) <= later.data@.len()
            &&& !(read_plan(before, earlier) is Unchanged)
            &&& follows(after, delta_of(f, earlier, before, capabilities, state))
        }) ==> {
            &&& read_plan(after, later) == (ReadPlan::Append { from: after.byte_offset as int })
            &&& delta_of(f, later, after, capabilities, state).source->0.generation
                == after.generation
        },
{
    let c = complete_part(lossy_text(earlier.data@));
    let text = lossy_text(later.data@);
    if starts(text, c) {
        let more = text.skip(c.len() as int);
        assert(text =~= c + more);
        byte_len_adds(c, more);
        assert(encode_utf8(text).take(byte_len(c) as int) =~= encode_utf8(c));
    }
}

} // verus!
