//! Text as a sequence of characters: trimming, splitting, searching, numbers.
use vstd::prelude::*;

verus! {

/// `String::push`: appends one character at the end.
pub assume_specification[ String::push ](s: &mut String, c: char)
    ensures
        final(s)@ == old(s)@.push(c),
;

/// `str::eq`: two strings are equal when they hold the same characters.
pub assume_specification[ <str as PartialEq<str>>::eq ](a: &str, b: &str) -> (r: bool)
    ensures
        r == (a@ == b@),
;

/// The characters of a string.
pub fn chars_of(s: &str) -> (v: Vec<char>)
    ensures
        v@ == s@,
{
    let mut v: Vec<char> = Vec::new();
    for c in it: s.chars()
        invariant
            it.seq() == s@,
            v@ == s@.take(it.index() as int),
    {
        v.push(c);
    }
    assert(s@.take(s@.len() as int) =~= s@);
    v
}

/// The string of the characters in `from..to`.
pub fn string_of(v: &Vec<char>, from: usize, to: usize) -> (s: String)
    requires
        from <= to <= v@.len(),
    ensures
        s@ == v@.subrange(from as int, to as int),
{
    let mut s = String::new();
    let mut i: usize = from;
    while i < to
        invariant
            from <= i <= to <= v@.len(),
            s@ == v@.subrange(from as int, i as int),
        decreases to - i,
    {
        s.push(v[i]);
        i = i + 1;
        assert(v@.subrange(from as int, i as int) =~= v@.subrange(from as int, i - 1).push(
            v@[i - 1],
        ));
    }
    s
}

/// Whether two strings hold the same characters.
pub fn same(a: &str, b: &str) -> (r: bool)
    ensures
        r == (a@ == b@),
{
    *a == *b
}

/// The characters of each string of a list.
pub open spec fn texts(v: Seq<String>) -> Seq<Seq<char>> {
    v.map_values(|s: String| s@)
}

// ---------------------------------------------------------------------------
// White space
// ---------------------------------------------------------------------------

/// Unicode's `White_Space` property.
pub open spec fn white(c: char) -> bool {
    ||| '\u{9}' <= c <= '\u{d}'
    ||| c == ' '
    ||| c == '\u{85}'
    ||| c == '\u{a0}'
    ||| c == '\u{1680}'
    ||| '\u{2000}' <= c <= '\u{200a}'
    ||| c == '\u{2028}'
    ||| c == '\u{2029}'
    ||| c == '\u{202f}'
    ||| c == '\u{205f}'
    ||| c == '\u{3000}'
}

/// Whether `c` is white space.
pub fn is_white(c: char) -> (r: bool)
    ensures
        r == white(c),
{
    ('\u{9}' <= c && c <= '\u{d}') || c == ' ' || c == '\u{85}' || c == '\u{a0}' || c == '\u{1680}'
        || ('\u{2000}' <= c && c <= '\u{200a}') || c == '\u{2028}' || c == '\u{2029}' || c
        == '\u{202f}' || c == '\u{205f}' || c == '\u{3000}'
}

/// `s` from its first character that is not white space on.
pub open spec fn skip_white(s: Seq<char>) -> Seq<char>
    decreases s.len(),
{
    if s.len() > 0 && white(s[0]) {
        skip_white(s.drop_first())
    } else {
        s
    }
}

/// `s` up to its last character that is not white space.
pub open spec fn drop_white(s: Seq<char>) -> Seq<char>
    decreases s.len(),
{
    if s.len() > 0 && white(s.last()) {
        drop_white(s.drop_last())
    } else {
        s
    }
}

/// `s` without white space at either end.
pub open spec fn trimmed(s: Seq<char>) -> Seq<char> {
    drop_white(skip_white(s))
}

/// Nothing but white space.
pub open spec fn blank(s: Seq<char>) -> bool {
    trimmed(s).len() == 0
}

proof fn drop_white_keeps_the_front(t: Seq<char>)
    ensures
        drop_white(t).len() <= t.len(),
        drop_white(t) == t.take(drop_white(t).len() as int),
        drop_white(t).len() > 0 ==> !white(drop_white(t).last()),
        drop_white(drop_white(t)) == drop_white(t),
    decreases t.len(),
{
    if t.len() > 0 && white(t.last()) {
        drop_white_keeps_the_front(t.drop_last());
        assert(t.drop_last().take(drop_white(t).len() as int) =~= t.take(
            drop_white(t).len() as int,
        ));
    } else {
        assert(t.take(t.len() as int) =~= t);
    }
}

/// A text without white space at its ends stays as it is when it is trimmed again.
pub proof fn trimming_settles(s: Seq<char>)
    ensures
        trimmed(trimmed(s)) == trimmed(s),
{
    let t = skip_white(s);
    skip_white_shortens(s);
    drop_white_keeps_the_front(t);
    let r = drop_white(t);
    if r.len() > 0 {
        assert(r[0] == t[0]);
    }
    assert(skip_white(r) == r);
}

/// The index of the first character that is not white space.
fn white_prefix(v: &Vec<char>) -> (i: usize)
    ensures
        i <= v@.len(),
        skip_white(v@) == v@.skip(i as int),
        forall|k: int| 0 <= k < i ==> white(#[trigger] v@[k]),
        i < v@.len() ==> !white(v@[i as int]),
{
    let mut i: usize = 0;
    assert(v@.skip(0) =~= v@);
    while i < v.len() && is_white(v[i])
        invariant
            i <= v@.len(),
            skip_white(v@) == skip_white(v@.skip(i as int)),
            forall|k: int| 0 <= k < i ==> white(#[trigger] v@[k]),
        decreases v@.len() - i,
    {
        assert(v@.skip(i as int).drop_first() =~= v@.skip(i + 1));
        i = i + 1;
    }
    i
}

/// The end of `v[from..]` once trailing white space is dropped.
fn white_suffix(v: &Vec<char>, from: usize) -> (j: usize)
    requires
        from <= v@.len(),
    ensures
        from <= j <= v@.len(),
        drop_white(v@.skip(from as int)) == v@.subrange(from as int, j as int),
{
    let mut j: usize = v.len();
    assert(v@.skip(from as int) =~= v@.subrange(from as int, j as int));
    while j > from && is_white(v[j - 1])
        invariant
            from <= j <= v@.len(),
            drop_white(v@.skip(from as int)) == drop_white(v@.subrange(from as int, j as int)),
        decreases j,
    {
        assert(v@.subrange(from as int, j as int).drop_last() =~= v@.subrange(
            from as int,
            j - 1,
        ));
        j = j - 1;
    }
    j
}

/// The string without white space at either end.
pub fn trim(s: &str) -> (r: String)
    ensures
        r@ == trimmed(s@),
{
    let v = chars_of(s);
    let i: usize = white_prefix(&v);
    let j: usize = white_suffix(&v, i);
    string_of(&v, i, j)
}

/// The string without white space at its start.
pub fn trim_start(s: &str) -> (r: String)
    ensures
        r@ == skip_white(s@),
{
    let v = chars_of(s);
    let i: usize = white_prefix(&v);
    let n: usize = v.len();
    assert(v@.skip(i as int) =~= v@.subrange(i as int, n as int));
    string_of(&v, i, n)
}

/// The string without white space at its end.
pub fn trim_end(s: &str) -> (r: String)
    ensures
        r@ == drop_white(s@),
{
    let v = chars_of(s);
    let j: usize = white_suffix(&v, 0);
    assert(v@.skip(0) =~= v@);
    string_of(&v, 0, j)
}

/// Whether the string holds nothing but white space.
pub fn is_blank(s: &str) -> (r: bool)
    ensures
        r == blank(s@),
{
    let t = trim(s);
    t.as_str().is_empty()
}

// ---------------------------------------------------------------------------
// Prefixes, suffixes, occurrences
// ---------------------------------------------------------------------------

/// `s` begins with `p`.
pub open spec fn starts(s: Seq<char>, p: Seq<char>) -> bool {
    p.len() <= s.len() && s.take(p.len() as int) == p
}

/// `s` ends with `p`.
pub open spec fn ends(s: Seq<char>, p: Seq<char>) -> bool {
    p.len() <= s.len() && s.skip(s.len() - p.len()) == p
}

/// `p` stands in `s` at `i`.
pub open spec fn occurs(s: Seq<char>, p: Seq<char>, i: int) -> bool {
    0 <= i && i + p.len() <= s.len() && s.subrange(i, i + p.len()) == p
}

/// `p` stands somewhere in `s`.
pub open spec fn has_text(s: Seq<char>, p: Seq<char>) -> bool {
    exists|i: int| occurs(s, p, i)
}

/// Where `p` first stands in `s` at or after `from`.
pub open spec fn first_from(s: Seq<char>, p: Seq<char>, from: int) -> Option<int>
    decreases s.len() + 1 - from,
{
    if from > s.len() {
        None
    } else if occurs(s, p, from) {
        Some(from)
    } else {
        first_from(s, p, from + 1)
    }
}

/// Where `p` first stands in `s`.
pub open spec fn first_at(s: Seq<char>, p: Seq<char>) -> Option<int> {
    first_from(s, p, 0)
}

/// Where a text is found it stands, and it stands nowhere before.
pub proof fn first_from_is_first(s: Seq<char>, p: Seq<char>, from: int)
    ensures
        match first_from(s, p, from) {
            Some(i) => from <= i && occurs(s, p, i) && forall|j: int|
                from <= j < i ==> !#[trigger] occurs(s, p, j),
            None => forall|j: int| from <= j ==> !#[trigger] occurs(s, p, j),
        },
    decreases s.len() + 1 - from,
{
    if from <= s.len() && !occurs(s, p, from) {
        first_from_is_first(s, p, from + 1);
    }
}

/// Whether `p` stands in `s` at `i`.
fn occurs_at(s: &Vec<char>, p: &Vec<char>, i: usize) -> (r: bool)
    requires
        i <= s@.len(),
    ensures
        r == occurs(s@, p@, i as int),
{
    if p.len() > s.len() - i {
        return false;
    }
    let mut k: usize = 0;
    while k < p.len()
        invariant
            k <= p@.len(),
            i + p@.len() <= s@.len() == s.len(),
            forall|j: int| 0 <= j < k ==> s@[i + j] == #[trigger] p@[j],
        decreases p@.len() - k,
    {
        if s[i + k] != p[k] {
            assert(s@.subrange(i as int, i + p@.len())[k as int] != p@[k as int]);
            return false;
        }
        k = k + 1;
    }
    assert(s@.subrange(i as int, i + p@.len()) =~= p@);
    true
}

/// Where `p` first stands in `s` at or after `from`, in characters.
pub fn find_from(s: &Vec<char>, p: &Vec<char>, from: usize) -> (r: Option<usize>)
    requires
        from <= s@.len(),
    ensures
        match r {
            Some(i) => first_from(s@, p@, from as int) == Some(i as int) && i + p@.len() <= s@.len(),
            None => first_from(s@, p@, from as int) is None,
        },
{
    let mut i: usize = from;
    loop
        invariant
            from <= i <= s@.len(),
            first_from(s@, p@, from as int) == first_from(s@, p@, i as int),
        decreases s@.len() - i,
    {
        if occurs_at(s, p, i) {
            return Some(i);
        }
        if i == s.len() {
            assert(first_from(s@, p@, i + 1) is None);
            return None;
        }
        i = i + 1;
    }
}

/// Whether `p` stands anywhere in `s`.
pub fn contains(s: &str, p: &str) -> (r: bool)
    ensures
        r == has_text(s@, p@),
{
    let sv = chars_of(s);
    let pv = chars_of(p);
    proof {
        first_from_is_first(s@, p@, 0);
    }
    match find_from(&sv, &pv, 0) {
        Some(_) => true,
        None => false,
    }
}

/// Whether the character stands anywhere in `s`.
pub fn contains_char(s: &str, c: char) -> (r: bool)
    ensures
        r == s@.contains(c),
{
    let v = chars_of(s);
    let mut i: usize = 0;
    while i < v.len()
        invariant
            i <= v@.len(),
            v@ == s@,
            forall|k: int| 0 <= k < i ==> v@[k] != c,
        decreases v@.len() - i,
    {
        if v[i] == c {
            return true;
        }
        i = i + 1;
    }
    false
}

/// Whether `s` begins with `p`.
pub fn starts_with(s: &str, p: &str) -> (r: bool)
    ensures
        r == starts(s@, p@),
{
    let sv = chars_of(s);
    let pv = chars_of(p);
    let r = occurs_at(&sv, &pv, 0);
    assert(p@.len() <= s@.len() ==> s@.take(p@.len() as int) =~= s@.subrange(
        0,
        p@.len() as int,
    ));
    r
}

/// Whether `s` ends with `p`.
pub fn ends_with(s: &str, p: &str) -> (r: bool)
    ensures
        r == ends(s@, p@),
{
    let sv = chars_of(s);
    let pv = chars_of(p);
    if pv.len() > sv.len() {
        return false;
    }
    let i: usize = sv.len() - pv.len();
    assert(s@.skip(i as int) =~= s@.subrange(i as int, i + p@.len()));
    occurs_at(&sv, &pv, i)
}

/// What follows `p` at the start of `s`.
pub fn strip_prefix(s: &str, p: &str) -> (r: Option<String>)
    ensures
        match r {
            Some(rest) => starts(s@, p@) && rest@ == s@.skip(p@.len() as int),
            None => !starts(s@, p@),
        },
{
    if starts_with(s, p) {
        let sv = chars_of(s);
        let pv = chars_of(p);
        let from: usize = pv.len();
        let n: usize = sv.len();
        assert(s@.skip(from as int) =~= s@.subrange(from as int, n as int));
        Some(string_of(&sv, from, n))
    } else {
        None
    }
}

/// What precedes `p` at the end of `s`.
pub fn strip_suffix(s: &str, p: &str) -> (r: Option<String>)
    ensures
        match r {
            Some(rest) => ends(s@, p@) && rest@ == s@.take(s@.len() - p@.len()),
            None => !ends(s@, p@),
        },
{
    if ends_with(s, p) {
        let sv = chars_of(s);
        let pv = chars_of(p);
        let n: usize = sv.len() - pv.len();
        assert(s@.take(n as int) =~= s@.subrange(0, n as int));
        Some(string_of(&sv, 0, n))
    } else {
        None
    }
}

/// Whether `s` is one of the strings of `v`.
pub fn is_listed(v: &Vec<String>, s: &str) -> (r: bool)
    ensures
        r == texts(v@).contains(s@),
{
    let mut i: usize = 0;
    while i < v.len()
        invariant
            i <= v@.len(),
            forall|k: int| 0 <= k < i ==> #[trigger] texts(v@)[k] != s@,
        decreases v@.len() - i,
    {
        assert(texts(v@)[i as int] == v@[i as int]@);
        if same(v[i].as_str(), s) {
            return true;
        }
        i = i + 1;
    }
    false
}

// ---------------------------------------------------------------------------
// Lines and joins
// ---------------------------------------------------------------------------

/// The index of the first `c`, or the length.
pub open spec fn index_of(s: Seq<char>, c: char) -> nat
    decreases s.len(),
{
    if s.len() == 0 || s[0] == c {
        0
    } else {
        1 + index_of(s.drop_first(), c)
    }
}

/// Where a character first stands: there, nowhere before, and at the end where it stands nowhere.
pub proof fn index_of_bound(s: Seq<char>, c: char)
    ensures
        index_of(s, c) <= s.len(),
        index_of(s, c) < s.len() ==> s[index_of(s, c) as int] == c,
        forall|k: int| 0 <= k < index_of(s, c) ==> s[k] != c,
    decreases s.len(),
{
    if s.len() > 0 && s[0] != c {
        index_of_bound(s.drop_first(), c);
        assert forall|k: int| 0 <= k < index_of(s, c) implies s[k] != c by {
            if k > 0 {
                assert(s[k] == s.drop_first()[k - 1]);
            }
        }
    }
}

/// The index of the first `c` at or after `from`, or the length.
pub fn position(v: &Vec<char>, c: char, from: usize) -> (i: usize)
    requires
        from <= v@.len(),
    ensures
        from <= i <= v@.len(),
        i == from + index_of(v@.skip(from as int), c),
{
    let mut i: usize = from;
    while i < v.len() && v[i] != c
        invariant
            from <= i <= v@.len(),
            index_of(v@.skip(from as int), c) == (i - from) + index_of(v@.skip(i as int), c),
        decreases v@.len() - i,
    {
        assert(v@.skip(i as int).drop_first() =~= v@.skip(i + 1));
        i = i + 1;
    }
    i
}

/// `s` without a carriage return at its end.
pub open spec fn without_cr(s: Seq<char>) -> Seq<char> {
    if s.len() > 0 && s.last() == '\r' {
        s.drop_last()
    } else {
        s
    }
}

/// The lines of a text. A line ends with `\n` or `\r\n`; the last may lack its end.
pub open spec fn lines_of(s: Seq<char>) -> Seq<Seq<char>>
    decreases s.len(),
    via lines_shrink
{
    if s.len() == 0 {
        Seq::empty()
    } else if index_of(s, '\n') == s.len() {
        seq![s]
    } else {
        seq![without_cr(s.take(index_of(s, '\n') as int))] + lines_of(
            s.skip(index_of(s, '\n') as int + 1),
        )
    }
}

#[via_fn]
proof fn lines_shrink(s: Seq<char>) {
    index_of_bound(s, '\n');
}

/// The lines of a text.
pub fn lines(s: &str) -> (r: Vec<String>)
    ensures
        texts(r@) == lines_of(s@),
{
    let v = chars_of(s);
    let mut out: Vec<String> = Vec::new();
    let mut i: usize = 0;
    assert(v@.skip(0) =~= v@);
    assert(texts(out@) + lines_of(v@) =~= lines_of(v@));
    while i < v.len()
        invariant
            i <= v@.len(),
            v@ == s@,
            texts(out@) + lines_of(v@.skip(i as int)) == lines_of(v@),
        decreases v@.len() - i,
    {
        let ghost rest = v@.skip(i as int);
        let n: usize = position(&v, '\n', i);
        if n == v.len() {
            assert(v@.subrange(i as int, n as int) =~= rest);
            let line = string_of(&v, i, n);
            let ghost before = texts(out@);
            out.push(line);
            assert(texts(out@) =~= before.push(rest));
            assert(before + seq![rest] =~= texts(out@));
            return out;
        }
        proof {
            index_of_bound(rest, '\n');
        }
        let end: usize = if n > i && v[n - 1] == '\r' {
            n - 1
        } else {
            n
        };
        let line = string_of(&v, i, end);
        assert(rest.take(n - i) =~= v@.subrange(i as int, n as int));
        assert(without_cr(rest.take(n - i)) =~= line@);
        let ghost before = texts(out@);
        out.push(line);
        assert(rest.skip(n - i + 1) =~= v@.skip(n + 1));
        assert(texts(out@) =~= before.push(line@));
        assert(before + (seq![line@] + lines_of(v@.skip(n + 1))) =~= texts(out@) + lines_of(
            v@.skip(n + 1),
        ));
        i = n + 1;
    }
    assert(v@.skip(i as int) =~= Seq::<char>::empty());
    assert(texts(out@) + Seq::<Seq<char>>::empty() =~= texts(out@));
    out
}

/// `s` without a carriage return at its end.
pub fn strip_cr(s: &str) -> (r: String)
    ensures
        r@ == without_cr(s@),
{
    let v = chars_of(s);
    let n: usize = v.len();
    let end: usize = if n > 0 && v[n - 1] == '\r' {
        n - 1
    } else {
        n
    };
    assert(v@.subrange(0, end as int) =~= without_cr(s@));
    string_of(&v, 0, end)
}

/// The lines of a text as they stand, each without its `\n` alone. The last may lack its end.
pub open spec fn raw_lines_of(s: Seq<char>) -> Seq<Seq<char>>
    decreases s.len(),
    via raw_lines_shrink
{
    if s.len() == 0 {
        Seq::empty()
    } else if index_of(s, '\n') == s.len() {
        seq![s]
    } else {
        seq![s.take(index_of(s, '\n') as int)] + raw_lines_of(s.skip(index_of(s, '\n') as int + 1))
    }
}

#[via_fn]
proof fn raw_lines_shrink(s: Seq<char>) {
    index_of_bound(s, '\n');
}

/// The lines of a text as they stand.
pub fn raw_lines(s: &str) -> (r: Vec<String>)
    ensures
        texts(r@) == raw_lines_of(s@),
{
    let v = chars_of(s);
    let mut out: Vec<String> = Vec::new();
    let mut i: usize = 0;
    assert(v@.skip(0) =~= v@);
    assert(texts(out@) + raw_lines_of(v@) =~= raw_lines_of(v@));
    while i < v.len()
        invariant
            i <= v@.len(),
            v@ == s@,
            texts(out@) + raw_lines_of(v@.skip(i as int)) == raw_lines_of(v@),
        decreases v@.len() - i,
    {
        let ghost rest = v@.skip(i as int);
        let n: usize = position(&v, '\n', i);
        let line = string_of(&v, i, n);
        let ghost before = texts(out@);
        out.push(line);
        assert(texts(out@) =~= before.push(line@));
        if n == v.len() {
            assert(line@ =~= rest);
            assert(before + seq![rest] =~= texts(out@));
            return out;
        }
        proof {
            index_of_bound(rest, '\n');
        }
        assert(line@ =~= rest.take(n - i));
        assert(rest.skip(n - i + 1) =~= v@.skip(n + 1));
        assert(before + (seq![line@] + raw_lines_of(v@.skip(n + 1))) =~= texts(out@)
            + raw_lines_of(v@.skip(n + 1)));
        i = n + 1;
    }
    assert(v@.skip(i as int) =~= Seq::<char>::empty());
    assert(texts(out@) + Seq::<Seq<char>>::empty() =~= texts(out@));
    out
}

/// The parts with `sep` between each two.
pub open spec fn joined(parts: Seq<Seq<char>>, sep: Seq<char>) -> Seq<char>
    decreases parts.len(),
{
    if parts.len() == 0 {
        Seq::empty()
    } else if parts.len() == 1 {
        parts[0]
    } else {
        joined(parts.drop_last(), sep) + sep + parts.last()
    }
}

/// The parts with `sep` between each two.
pub fn join(parts: &Vec<String>, sep: &str) -> (r: String)
    ensures
        r@ == joined(texts(parts@), sep@),
{
    let mut out = String::new();
    let mut i: usize = 0;
    let ghost all = texts(parts@);
    assert(all.take(0) =~= Seq::<Seq<char>>::empty());
    while i < parts.len()
        invariant
            i <= parts@.len(),
            all == texts(parts@),
            out@ == joined(all.take(i as int), sep@),
        decreases parts@.len() - i,
    {
        assert(all.take(i + 1).drop_last() =~= all.take(i as int));
        assert(all.take(i + 1).last() == parts@[i as int]@);
        if i > 0 {
            out.append(sep);
        }
        out.append(parts[i].as_str());
        i = i + 1;
    }
    assert(all.take(i as int) =~= all);
    out
}

/// The text after the last `c`; the whole text when there is none.
pub open spec fn after_last(s: Seq<char>, c: char) -> Seq<char>
    decreases s.len(),
{
    if s.len() == 0 || s.last() == c {
        Seq::empty()
    } else {
        after_last(s.drop_last(), c).push(s.last())
    }
}

/// The text after the last `c`; the whole text when there is none.
pub fn tail_after(s: &str, c: char) -> (r: String)
    ensures
        r@ == after_last(s@, c),
{
    let v = chars_of(s);
    let n: usize = v.len();
    let mut i: usize = n;
    assert(v@.take(n as int) =~= v@);
    assert(v@.subrange(n as int, n as int) =~= Seq::<char>::empty());
    assert(after_last(v@, c) =~= after_last(v@, c) + Seq::<char>::empty());
    while i > 0 && v[i - 1] != c
        invariant
            i <= n == v@.len(),
            after_last(v@, c) == after_last(v@.take(i as int), c) + v@.subrange(
                i as int,
                n as int,
            ),
        decreases i,
    {
        assert(v@.take(i as int).drop_last() =~= v@.take(i - 1));
        assert(after_last(v@.take(i - 1), c).push(v@[i - 1]) + v@.subrange(i as int, n as int)
            =~= after_last(v@.take(i - 1), c) + v@.subrange(i - 1, n as int));
        i = i - 1;
    }
    assert(after_last(v@.take(i as int), c) =~= Seq::<char>::empty());
    assert(Seq::<char>::empty() + v@.subrange(i as int, n as int) =~= v@.subrange(
        i as int,
        n as int,
    ));
    string_of(&v, i, n)
}

/// The parts of a text between each two `c`.
pub open spec fn split_on(s: Seq<char>, c: char) -> Seq<Seq<char>>
    decreases s.len(),
    via split_shrinks
{
    if index_of(s, c) == s.len() {
        seq![s]
    } else {
        seq![s.take(index_of(s, c) as int)] + split_on(s.skip(index_of(s, c) as int + 1), c)
    }
}

#[via_fn]
proof fn split_shrinks(s: Seq<char>, c: char) {
    index_of_bound(s, c);
}

/// The parts of a text between each two `c`.
pub fn split(s: &str, c: char) -> (r: Vec<String>)
    ensures
        texts(r@) == split_on(s@, c),
{
    let v = chars_of(s);
    let mut out: Vec<String> = Vec::new();
    let mut i: usize = 0;
    assert(v@.skip(0) =~= v@);
    assert(texts(out@) + split_on(v@, c) =~= split_on(v@, c));
    loop
        invariant
            i <= v@.len(),
            v@ == s@,
            texts(out@) + split_on(v@.skip(i as int), c) == split_on(v@, c),
        decreases v@.len() - i,
    {
        let ghost rest = v@.skip(i as int);
        let n: usize = position(&v, c, i);
        proof {
            index_of_bound(rest, c);
        }
        let part = string_of(&v, i, n);
        assert(part@ =~= rest.take(n - i));
        let ghost before = texts(out@);
        out.push(part);
        assert(texts(out@) =~= before.push(part@));
        if n == v.len() {
            assert(part@ =~= rest);
            assert(before + seq![rest] =~= texts(out@));
            return out;
        }
        assert(rest.skip(n - i + 1) =~= v@.skip(n + 1));
        assert(before + (seq![part@] + split_on(v@.skip(n + 1), c)) =~= texts(out@) + split_on(
            v@.skip(n + 1),
            c,
        ));
        i = n + 1;
    }
}

// ---------------------------------------------------------------------------
// Numbers
// ---------------------------------------------------------------------------

/// The character of a decimal digit.
pub open spec fn digit(d: int) -> char {
    if d == 0 {
        '0'
    } else if d == 1 {
        '1'
    } else if d == 2 {
        '2'
    } else if d == 3 {
        '3'
    } else if d == 4 {
        '4'
    } else if d == 5 {
        '5'
    } else if d == 6 {
        '6'
    } else if d == 7 {
        '7'
    } else if d == 8 {
        '8'
    } else {
        '9'
    }
}

fn digit_char(d: u64) -> (c: char)
    requires
        d < 10,
    ensures
        c == digit(d as int),
{
    match d {
        0 => '0',
        1 => '1',
        2 => '2',
        3 => '3',
        4 => '4',
        5 => '5',
        6 => '6',
        7 => '7',
        8 => '8',
        _ => '9',
    }
}

/// A number in decimal, without leading zeros.
pub open spec fn decimal(n: nat) -> Seq<char>
    decreases n,
{
    if n < 10 {
        seq![digit(n as int)]
    } else {
        decimal(n / 10).push(digit((n % 10) as int))
    }
}

/// A whole number in decimal, with a minus sign where it is below zero.
pub open spec fn signed_decimal(n: int) -> Seq<char> {
    if n < 0 {
        seq!['-'] + decimal((-n) as nat)
    } else {
        decimal(n as nat)
    }
}

proof fn digits_differ(a: int, b: int)
    requires
        0 <= a < 10,
        0 <= b < 10,
        digit(a) == digit(b),
    ensures
        a == b,
{
}

proof fn decimal_is_written(n: nat)
    ensures
        decimal(n).len() > 0,
        decimal(n)[0] != '-',
    decreases n,
{
    if n >= 10 {
        decimal_is_written(n / 10);
        assert(decimal(n)[0] == decimal(n / 10)[0]);
    }
}

proof fn decimals_differ(a: nat, b: nat)
    requires
        decimal(a) == decimal(b),
    ensures
        a == b,
    decreases a,
{
    decimal_is_written(a / 10);
    decimal_is_written(b / 10);
    let x = decimal(a);
    let y = decimal(b);
    if a < 10 && b < 10 {
        assert(x == seq![digit(a as int)] && y == seq![digit(b as int)]);
        assert(x[0] == digit(a as int) && y[0] == digit(b as int));
        digits_differ(a as int, b as int);
    } else if a >= 10 && b >= 10 {
        assert(x.drop_last() =~= decimal(a / 10));
        assert(y.drop_last() =~= decimal(b / 10));
        assert(x.last() == digit((a % 10) as int) && y.last() == digit((b % 10) as int));
        digits_differ((a % 10) as int, (b % 10) as int);
        decimals_differ(a / 10, b / 10);
    } else {
        assert(x.len() == y.len());
    }
}

/// Two numbers that are written the same are the same.
pub proof fn signed_decimals_differ(a: int, b: int)
    ensures
        signed_decimal(a) == signed_decimal(b) <==> a == b,
{
    if signed_decimal(a) == signed_decimal(b) {
        if a >= 0 {
            decimal_is_written(a as nat);
        }
        if b >= 0 {
            decimal_is_written(b as nat);
        }
        if a < 0 && b < 0 {
            let x = decimal((-a) as nat);
            let y = decimal((-b) as nat);
            assert((seq!['-'] + x).skip(1) =~= x);
            assert((seq!['-'] + y).skip(1) =~= y);
            decimals_differ((-a) as nat, (-b) as nat);
        } else if a >= 0 && b >= 0 {
            decimals_differ(a as nat, b as nat);
        } else {
            assert(signed_decimal(a)[0] == signed_decimal(b)[0]);
        }
    }
}

/// A number in decimal.
pub fn decimal_of(n: u64) -> (s: String)
    ensures
        s@ == decimal(n as nat),
    decreases n,
{
    if n < 10 {
        let mut s = String::new();
        s.push(digit_char(n));
        assert(s@ =~= seq![digit(n as int)]);
        s
    } else {
        let mut s = decimal_of(n / 10);
        s.push(digit_char(n % 10));
        s
    }
}

/// A whole number in decimal.
pub fn signed_decimal_of(n: i64) -> (s: String)
    ensures
        s@ == signed_decimal(n as int),
{
    if n < 0 {
        let m: u64 = if n == i64::MIN {
            0x8000_0000_0000_0000
        } else {
            (-n) as u64
        };
        let mut s = String::new();
        s.push('-');
        let d = decimal_of(m);
        s.append(d.as_str());
        assert(s@ =~= seq!['-'] + decimal((-n) as nat));
        s
    } else {
        decimal_of(n as u64)
    }
}

// ---------------------------------------------------------------------------
// Words and case
// ---------------------------------------------------------------------------

/// Where the first white space stands; at the end where there is none.
pub open spec fn word_end(s: Seq<char>) -> nat
    decreases s.len(),
{
    if s.len() == 0 || white(s[0]) {
        0
    } else {
        1 + word_end(s.drop_first())
    }
}

/// The words of a text: what stands between white space.
pub open spec fn words_of(s: Seq<char>) -> Seq<Seq<char>>
    decreases s.len(),
    via words_shrink
{
    let t = skip_white(s);
    if t.len() == 0 {
        Seq::empty()
    } else {
        seq![t.take(word_end(t) as int)] + words_of(t.skip(word_end(t) as int))
    }
}

proof fn skip_white_shortens(s: Seq<char>)
    ensures
        skip_white(s).len() <= s.len(),
        skip_white(s).len() > 0 ==> !white(skip_white(s)[0]),
        skip_white(s) == s.skip(s.len() - skip_white(s).len()),
    decreases s.len(),
{
    if s.len() > 0 && white(s[0]) {
        skip_white_shortens(s.drop_first());
        assert(s.drop_first().skip(s.len() - 1 - skip_white(s).len()) =~= s.skip(
            s.len() - skip_white(s).len(),
        ));
    } else {
        assert(s.skip(0) =~= s);
    }
}

proof fn word_end_bound(s: Seq<char>)
    ensures
        word_end(s) <= s.len(),
    decreases s.len(),
{
    if s.len() > 0 && !white(s[0]) {
        word_end_bound(s.drop_first());
    }
}

#[via_fn]
proof fn words_shrink(s: Seq<char>) {
    skip_white_shortens(s);
    word_end_bound(skip_white(s));
}

/// The words of a text.
pub fn words(s: &str) -> (r: Vec<String>)
    ensures
        texts(r@) == words_of(s@),
{
    let v = chars_of(s);
    let n: usize = v.len();
    let mut out: Vec<String> = Vec::new();
    let mut i: usize = 0;
    assert(s@.skip(0) =~= s@);
    assert(texts(out@) + words_of(s@) =~= words_of(s@));
    loop
        invariant
            v@ == s@,
            n == s@.len(),
            i <= n,
            texts(out@) + words_of(s@.skip(i as int)) == words_of(s@),
        decreases n - i,
    {
        let ghost rest = s@.skip(i as int);
        let ghost start = skip_white(rest);
        proof {
            skip_white_shortens(rest);
        }
        while i < n && is_white(v[i])
            invariant
                v@ == s@,
                n == s@.len(),
                i <= n,
                skip_white(s@.skip(i as int)) == start,
            decreases n - i,
        {
            assert(s@.skip(i as int).drop_first() =~= s@.skip(i + 1));
            i = i + 1;
        }
        assert(start == s@.skip(i as int));
        if i == n {
            assert(texts(out@) + Seq::<Seq<char>>::empty() =~= texts(out@));
            return out;
        }
        let from: usize = i;
        proof {
            word_end_bound(start);
        }
        let ghost end = word_end(start);
        while i < n && !is_white(v[i])
            invariant
                v@ == s@,
                n == s@.len(),
                from <= i <= n,
                end == (i - from) + word_end(s@.skip(i as int)),
            decreases n - i,
        {
            assert(s@.skip(i as int).drop_first() =~= s@.skip(i + 1));
            i = i + 1;
        }
        assert(end == i - from);
        let word = string_of(&v, from, i);
        assert(word@ =~= start.take(end as int));
        assert(start.skip(end as int) =~= s@.skip(i as int));
        let ghost before = texts(out@);
        out.push(word);
        assert(texts(out@) =~= before.push(word@));
        assert(before + (seq![word@] + words_of(s@.skip(i as int))) =~= before.push(word@)
            + words_of(s@.skip(i as int)));
    }
}

/// The number of a character, an ASCII capital taken as its small letter.
pub open spec fn folded(c: char) -> u32 {
    if 'A' <= c <= 'Z' {
        (c as u32 + 32) as u32
    } else {
        c as u32
    }
}

/// Whether two texts are the same but for the case of ASCII letters.
pub open spec fn same_letters(a: Seq<char>, b: Seq<char>) -> bool {
    a.len() == b.len() && forall|i: int|
        0 <= i < a.len() ==> folded(#[trigger] a[i]) == folded(b[i])
}

fn fold(c: char) -> (r: u32)
    ensures
        r == folded(c),
{
    if 'A' <= c && c <= 'Z' {
        c as u32 + 32
    } else {
        c as u32
    }
}

/// Whether two texts are the same but for the case of ASCII letters.
pub fn same_ignoring_case(a: &str, b: &str) -> (r: bool)
    ensures
        r == same_letters(a@, b@),
{
    let x = chars_of(a);
    let y = chars_of(b);
    if x.len() != y.len() {
        return false;
    }
    let mut i: usize = 0;
    while i < x.len()
        invariant
            x@ == a@,
            y@ == b@,
            x@.len() == y@.len(),
            i <= x@.len(),
            forall|k: int| 0 <= k < i ==> folded(#[trigger] x@[k]) == folded(y@[k]),
        decreases x@.len() - i,
    {
        if fold(x[i]) != fold(y[i]) {
            assert(folded(a@[i as int]) != folded(b@[i as int]));
            return false;
        }
        i = i + 1;
    }
    true
}

/// A text in small letters.
pub uninterp spec fn small_letters(s: Seq<char>) -> Seq<char>;

/// `str::to_lowercase`: depends on the text alone.
#[verifier::external_body]
pub(crate) fn to_small_letters(s: &str) -> (r: String)
    ensures
        r@ == small_letters(s@),
{
    s.to_lowercase()
}

// ---------------------------------------------------------------------------
// Quoting
// ---------------------------------------------------------------------------

/// A string as `{:?}` prints it.
pub uninterp spec fn debug_form(s: Seq<char>) -> Seq<char>;

/// `str`'s `Debug`: the string in quotes with its special characters escaped; depends on the
/// string alone.
#[verifier::external_body]
pub(crate) fn debug_text(s: &str) -> (r: String)
    ensures
        r@ == debug_form(s@),
{
    format!("{:?}", s)
}

/// A list of strings as `{:?}` prints it.
pub open spec fn list_form(v: Seq<Seq<char>>) -> Seq<char> {
    "["@ + joined(v.map_values(|s: Seq<char>| debug_form(s)), ", "@) + "]"@
}

/// A list of strings as `{:?}` prints it.
pub fn debug_list(v: &Vec<String>) -> (r: String)
    ensures
        r@ == list_form(texts(v@)),
{
    let ghost all = texts(v@);
    let ghost quoted = all.map_values(|s: Seq<char>| debug_form(s));
    let mut parts: Vec<String> = Vec::new();
    let mut i: usize = 0;
    assert(texts(parts@) =~= quoted.take(0));
    while i < v.len()
        invariant
            i <= v@.len(),
            all == texts(v@),
            quoted == all.map_values(|s: Seq<char>| debug_form(s)),
            texts(parts@) == quoted.take(i as int),
        decreases v@.len() - i,
    {
        let ghost before = texts(parts@);
        let q = debug_text(v[i].as_str());
        parts.push(q);
        assert(texts(parts@) =~= before.push(q@));
        i = i + 1;
        assert(quoted.take(i as int) =~= quoted.take(i - 1).push(quoted[i - 1]));
    }
    assert(quoted.take(i as int) =~= quoted);
    let mut r: String = "[".to_owned();
    r.append(join(&parts, ", ").as_str());
    r.append("]");
    r
}

/// Pairs of strings as `{:?}` prints a list of them.
pub open spec fn pairs_form(v: Seq<(Seq<char>, Seq<char>)>) -> Seq<char> {
    "["@ + joined(
        v.map_values(
            |p: (Seq<char>, Seq<char>)|
                "("@ + debug_form(p.0) + ", "@ + debug_form(p.1) + ")"@,
        ),
        ", "@,
    ) + "]"@
}

/// Pairs of strings, as mathematical values.
pub open spec fn text_pairs(v: Seq<(String, String)>) -> Seq<(Seq<char>, Seq<char>)> {
    v.map_values(|p: (String, String)| (p.0@, p.1@))
}

/// Pairs of strings as `{:?}` prints a list of them.
pub fn debug_pairs(v: &Vec<(String, String)>) -> (r: String)
    ensures
        r@ == pairs_form(text_pairs(v@)),
{
    let ghost all = text_pairs(v@);
    let ghost show = |p: (Seq<char>, Seq<char>)|
        "("@ + debug_form(p.0) + ", "@ + debug_form(p.1) + ")"@;
    let ghost quoted = all.map_values(show);
    let mut parts: Vec<String> = Vec::new();
    let mut i: usize = 0;
    assert(texts(parts@) =~= quoted.take(0));
    while i < v.len()
        invariant
            i <= v@.len(),
            all == text_pairs(v@),
            show == (|p: (Seq<char>, Seq<char>)|
                "("@ + debug_form(p.0) + ", "@ + debug_form(p.1) + ")"@),
            quoted == all.map_values(show),
            texts(parts@) == quoted.take(i as int),
        decreases v@.len() - i,
    {
        let ghost before = texts(parts@);
        let mut q: String = "(".to_owned();
        q.append(debug_text(v[i].0.as_str()).as_str());
        q.append(", ");
        q.append(debug_text(v[i].1.as_str()).as_str());
        q.append(")");
        assert(q@ == show(all[i as int]));
        parts.push(q);
        assert(texts(parts@) =~= before.push(q@));
        i = i + 1;
        assert(quoted.take(i as int) =~= quoted.take(i - 1).push(quoted[i - 1]));
    }
    assert(quoted.take(i as int) =~= quoted);
    let mut r: String = "[".to_owned();
    r.append(join(&parts, ", ").as_str());
    r.append("]");
    r
}

/// A small ASCII letter as its capital; any other character as it is.
pub open spec fn capital(c: char) -> char {
    if 'a' <= c <= 'z' {
        (c as u8 - 32) as char
    } else {
        c
    }
}

/// A name of words with `_` between them as a title: spaces between the words, each with a capital.
pub open spec fn titled(name: Seq<char>) -> Seq<char> {
    Seq::new(
        name.len(),
        |i: int|
            if name[i] == '_' {
                ' '
            } else if i == 0 || name[i - 1] == '_' {
                capital(name[i])
            } else {
                name[i]
            },
    )
}

/// A name of words with `_` between them as a title.
pub fn title_case(name: &str) -> (r: String)
    ensures
        r@ == titled(name@),
{
    let v = chars_of(name);
    let mut out = String::new();
    let mut i: usize = 0;
    assert(out@ =~= titled(name@).take(0));
    while i < v.len()
        invariant
            i <= v@.len(),
            v@ == name@,
            out@ == titled(name@).take(i as int),
        decreases v@.len() - i,
    {
        let c: char = v[i];
        let shown: char = if c == '_' {
            ' '
        } else if (i == 0 || v[i - 1] == '_') && 'a' <= c && c <= 'z' {
            (c as u8 - 32) as char
        } else {
            c
        };
        out.push(shown);
        assert(titled(name@).take(i + 1) =~= titled(name@).take(i as int).push(shown));
        i = i + 1;
    }
    assert(titled(name@).take(i as int) =~= titled(name@));
    out
}

// ---------------------------------------------------------------------------
// Order
// ---------------------------------------------------------------------------

/// Whether a text stands before another in the dictionary.
pub open spec fn before(a: Seq<char>, b: Seq<char>) -> bool
    decreases a.len(),
{
    if b.len() == 0 {
        false
    } else if a.len() == 0 {
        true
    } else if a[0] != b[0] {
        a[0] < b[0]
    } else {
        before(a.drop_first(), b.drop_first())
    }
}

/// Of two texts, one stands before the other, or they are the same.
pub proof fn order_is_total(a: Seq<char>, b: Seq<char>)
    ensures
        a == b || before(a, b) || before(b, a),
        !(before(a, b) && before(b, a)),
        before(a, b) ==> a != b,
    decreases a.len(),
{
    if a.len() > 0 && b.len() > 0 && a[0] == b[0] {
        order_is_total(a.drop_first(), b.drop_first());
        if a.drop_first() == b.drop_first() {
            assert(a =~= seq![a[0]] + a.drop_first());
            assert(b =~= seq![b[0]] + b.drop_first());
        }
    } else if a.len() == 0 && b.len() == 0 {
        assert(a =~= b);
    }
}

/// What stands before a text stands before all that this text stands before.
pub proof fn order_is_transitive(a: Seq<char>, b: Seq<char>, c: Seq<char>)
    requires
        before(a, b),
        before(b, c),
    ensures
        before(a, c),
    decreases a.len(),
{
    if a.len() > 0 && a[0] == b[0] && b[0] == c[0] {
        order_is_transitive(a.drop_first(), b.drop_first(), c.drop_first());
    }
}

/// Texts in the order of the dictionary, none of them twice.
pub open spec fn ascending(v: Seq<Seq<char>>) -> bool {
    forall|i: int, j: int|
        0 <= i < j < v.len() ==> before(#[trigger] v[i], #[trigger] v[j])
}

/// There is one order of some texts.
pub proof fn one_order(a: Seq<Seq<char>>, b: Seq<Seq<char>>)
    requires
        ascending(a),
        ascending(b),
        a.to_set() == b.to_set(),
    ensures
        a == b,
    decreases a.len(),
{
    if a.len() == 0 {
        if b.len() > 0 {
            assert(b.to_set().contains(b[0]));
            assert(a.contains(b[0]));
        }
        assert(a =~= b);
    } else if b.len() == 0 {
        assert(a.to_set().contains(a[0]));
        assert(b.contains(a[0]));
    } else {
        let x = a.last();
        let y = b.last();
        assert(a.to_set().contains(x)) by {
            assert(a[a.len() - 1] == x);
        }
        assert(b.to_set().contains(y)) by {
            assert(b[b.len() - 1] == y);
        }
        assert(b.contains(x));
        assert(a.contains(y));
        let j = choose|j: int| 0 <= j < b.len() && b[j] == x;
        let i = choose|i: int| 0 <= i < a.len() && a[i] == y;
        order_is_total(x, y);
        if x != y {
            assert(j < b.len() - 1);
            assert(before(b[j], b[b.len() - 1]));
            assert(i < a.len() - 1);
            assert(before(a[i], a[a.len() - 1]));
        }
        assert(x == y);
        let c = a.drop_last();
        let d = b.drop_last();
        assert forall|i: int, j: int| 0 <= i < j < c.len() implies before(
            #[trigger] c[i],
            #[trigger] c[j],
        ) by {
            assert(c[i] == a[i] && c[j] == a[j]);
        }
        assert forall|i: int, j: int| 0 <= i < j < d.len() implies before(
            #[trigger] d[i],
            #[trigger] d[j],
        ) by {
            assert(d[i] == b[i] && d[j] == b[j]);
        }
        assert(c.to_set() =~= d.to_set()) by {
            assert forall|t: Seq<char>| c.contains(t) <==> d.contains(t) by {
                front_of_ascending(a, t);
                front_of_ascending(b, t);
                if a.contains(t) {
                    assert(a.to_set().contains(t));
                    assert(b.contains(t));
                }
                if b.contains(t) {
                    assert(b.to_set().contains(t));
                    assert(a.contains(t));
                }
            }
        }
        one_order(c, d);
        assert(a =~= c.push(x));
        assert(b =~= d.push(y));
    }
}

proof fn front_of_ascending(a: Seq<Seq<char>>, t: Seq<char>)
    requires
        a.len() > 0,
        ascending(a),
    ensures
        a.drop_last().contains(t) <==> a.contains(t) && t != a.last(),
{
    let c = a.drop_last();
    if c.contains(t) {
        let k = choose|k: int| 0 <= k < c.len() && c[k] == t;
        assert(a[k] == t);
        assert(before(a[k], a[a.len() - 1]));
        order_is_total(a[k], a[a.len() - 1]);
    }
    if a.contains(t) && t != a.last() {
        let k = choose|k: int| 0 <= k < a.len() && a[k] == t;
        assert(c[k] == t);
    }
}

/// Whether a text stands before another in the dictionary.
pub fn is_before(a: &str, b: &str) -> (r: bool)
    ensures
        r == before(a@, b@),
{
    let x = chars_of(a);
    let y = chars_of(b);
    let mut i: usize = 0;
    assert(a@.skip(0) =~= a@ && b@.skip(0) =~= b@);
    while i < x.len() && i < y.len()
        invariant
            x@ == a@,
            y@ == b@,
            i <= x@.len(),
            i <= y@.len(),
            before(a@, b@) == before(a@.skip(i as int), b@.skip(i as int)),
        decreases x@.len() - i,
    {
        assert(a@.skip(i as int).drop_first() =~= a@.skip(i + 1));
        assert(b@.skip(i as int).drop_first() =~= b@.skip(i + 1));
        if x[i] != y[i] {
            return x[i] < y[i];
        }
        i = i + 1;
    }
    i < y.len()
}

/// Puts a text in its place, unless it is there.
pub fn insert_text(v: &mut Vec<String>, s: &str)
    requires
        ascending(texts(old(v)@)),
    ensures
        ascending(texts(final(v)@)),
        texts(final(v)@).to_set() == texts(old(v)@).to_set().insert(s@),
{
    let ghost all = texts(v@);
    let mut i: usize = 0;
    while i < v.len() && is_before(v[i].as_str(), s)
        invariant
            i <= v@.len(),
            *v == *old(v),
            all == texts(v@),
            ascending(all),
            forall|k: int| 0 <= k < i ==> before(#[trigger] all[k], s@),
        decreases v@.len() - i,
    {
        assert(all[i as int] == v@[i as int]@);
        i = i + 1;
    }
    if i < v.len() && same(v[i].as_str(), s) {
        assert(all[i as int] == s@);
        assert(all.to_set().insert(s@) =~= all.to_set());
        return ;
    }
    proof {
        if i < v@.len() {
            assert(all[i as int] == v@[i as int]@);
            order_is_total(all[i as int], s@);
            assert(before(s@, all[i as int]));
            assert forall|k: int| i < k < all.len() implies before(s@, #[trigger] all[k]) by {
                assert(before(all[i as int], all[k]));
                order_is_transitive(s@, all[i as int], all[k]);
            }
        }
    }
    v.insert(i, s.to_owned());
    let ghost more = texts(v@);
    assert(more =~= all.insert(i as int, s@));
    assert forall|a: int, b: int| 0 <= a < b < more.len() implies before(
        #[trigger] more[a],
        #[trigger] more[b],
    ) by {
        let x = if a < i {
            a
        } else {
            a - 1
        };
        let y = if b < i {
            b
        } else {
            b - 1
        };
        if a != i && b != i {
            assert(more[a] == all[x] && more[b] == all[y]);
        } else if a == i {
            assert(more[b] == all[b - 1]);
        } else {
            assert(more[a] == all[a]);
        }
    }
    assert(more.to_set() =~= all.to_set().insert(s@)) by {
        assert forall|t: Seq<char>| more.to_set().contains(t) <==> all.to_set().insert(
            s@,
        ).contains(t) by {
            if more.contains(t) {
                let k = choose|k: int| 0 <= k < more.len() && more[k] == t;
                if k < i {
                    assert(all[k] == t);
                } else if k > i {
                    assert(all[k - 1] == t);
                }
            }
            if all.contains(t) {
                let k = choose|k: int| 0 <= k < all.len() && all[k] == t;
                if k < i {
                    assert(more[k] == t);
                } else {
                    assert(more[k + 1] == t);
                }
            }
            assert(more[i as int] == s@);
        }
    }
}

// ---------------------------------------------------------------------------
// What these mean
// ---------------------------------------------------------------------------

/// The characters of a list of strings are those of each of them.
pub proof fn texts_are_the_characters(v: Seq<String>)
    ensures
        texts(v).len() == v.len(),
        forall|i: int| 0 <= i < v.len() ==> #[trigger] texts(v)[i] == v[i]@,
{
}

/// `s` with white space up to `i` and from `j` on, and none at either end of what is between.
pub open spec fn bounds(s: Seq<char>, i: int, j: int) -> bool {
    &&& 0 <= i <= j <= s.len()
    &&& forall|k: int| 0 <= k < i ==> white(#[trigger] s[k])
    &&& forall|k: int| j <= k < s.len() ==> white(#[trigger] s[k])
    &&& i < j ==> !white(s[i]) && !white(s[j - 1])
}

proof fn skipping_skips_white(s: Seq<char>)
    ensures
        forall|k: int| 0 <= k < s.len() - skip_white(s).len() ==> white(#[trigger] s[k]),
    decreases s.len(),
{
    if s.len() > 0 && white(s[0]) {
        let rest = s.drop_first();
        skipping_skips_white(rest);
        skip_white_shortens(rest);
        assert forall|k: int| 0 <= k < s.len() - skip_white(s).len() implies white(
            #[trigger] s[k],
        ) by {
            if k > 0 {
                assert(white(rest[k - 1]));
            }
        }
    }
}

proof fn dropping_drops_white(s: Seq<char>)
    ensures
        forall|k: int| drop_white(s).len() <= k < s.len() ==> white(#[trigger] s[k]),
    decreases s.len(),
{
    if s.len() > 0 && white(s.last()) {
        let front = s.drop_last();
        dropping_drops_white(front);
        assert forall|k: int| drop_white(s).len() <= k < s.len() implies white(
            #[trigger] s[k],
        ) by {
            if k < front.len() {
                assert(white(front[k]));
            }
        }
    }
}

/// Trimming takes the white space off both ends, all of it and nothing else.
pub proof fn trimming_takes_white_space_off(s: Seq<char>)
    ensures
        exists|i: int, j: int| #[trigger] bounds(s, i, j) && trimmed(s) == s.subrange(i, j),
{
    let t = skip_white(s);
    let i = s.len() - t.len();
    skip_white_shortens(s);
    skipping_skips_white(s);
    dropping_drops_white(t);
    drop_white_keeps_the_front(t);
    let j = i + trimmed(s).len();
    assert(trimmed(s) =~= s.subrange(i, j));
    assert forall|k: int| j <= k < s.len() implies white(#[trigger] s[k]) by {
        assert(t[k - i] == s[k]);
        assert(white(t[k - i]));
    }
    if i < j {
        assert(t[0] == s[i]);
        assert(trimmed(s).last() == s[j - 1]);
    }
    assert(bounds(s, i, j));
}

/// A text is blank where every character is white space, and only there.
pub proof fn a_blank_text_is_all_white(s: Seq<char>)
    ensures
        blank(s) <==> forall|k: int| 0 <= k < s.len() ==> white(#[trigger] s[k]),
{
    trimming_takes_white_space_off(s);
    let (i, j) = choose|i: int, j: int| #[trigger] bounds(s, i, j) && trimmed(s) == s.subrange(
        i,
        j,
    );
    if forall|k: int| 0 <= k < s.len() ==> white(#[trigger] s[k]) {
        if i < j {
            assert(white(s[i]));
        }
    }
}

/// A text stands at a place, at the start or at the end of another where it does character by
/// character.
pub proof fn where_a_text_stands(s: Seq<char>, p: Seq<char>, i: int)
    ensures
        occurs(s, p, i) <==> 0 <= i && i + p.len() <= s.len() && forall|k: int|
            0 <= k < p.len() ==> #[trigger] p[k] == s[i + k],
        starts(s, p) <==> occurs(s, p, 0),
        ends(s, p) <==> occurs(s, p, s.len() - p.len()),
        occurs(s, p, i) ==> has_text(s, p),
        first_at(s, p) is Some <==> has_text(s, p),
        first_at(s, p) matches Some(k) ==> occurs(s, p, k) && (occurs(s, p, i) ==> k <= i),
{
    if 0 <= i && i + p.len() <= s.len() {
        if forall|k: int| 0 <= k < p.len() ==> #[trigger] p[k] == s[i + k] {
            assert(s.subrange(i, i + p.len()) =~= p);
        }
        if occurs(s, p, i) {
            assert forall|k: int| 0 <= k < p.len() implies #[trigger] p[k] == s[i + k] by {
                assert(s.subrange(i, i + p.len())[k] == s[i + k]);
            }
        }
    }
    if p.len() <= s.len() {
        assert(s.take(p.len() as int) =~= s.subrange(0, p.len() as int));
        assert(s.skip(s.len() - p.len()) =~= s.subrange(s.len() - p.len(), s.len() as int));
    }
    first_from_is_first(s, p, 0);
}

proof fn first_end_is_found(a: Seq<char>, b: Seq<char>, c: char)
    requires
        !a.contains(c),
    ensures
        index_of(a, c) == a.len(),
        index_of(a + seq![c] + b, c) == a.len(),
{
    index_of_bound(a, c);
    if index_of(a, c) < a.len() {
        assert(a.contains(a[index_of(a, c) as int]));
    }
    let s = a + seq![c] + b;
    index_of_bound(s, c);
    let n = index_of(s, c) as int;
    assert(s[a.len() as int] == c);
    if n < a.len() {
        assert(a[n] == s[n]);
        assert(a.contains(a[n]));
    }
    if n > a.len() {
        assert(s[a.len() as int] != c);
    }
}

/// Each line end ends a line; what is left behind the last is a line where it holds anything. A
/// carriage return in front of a line end belongs to the end.
pub proof fn a_line_end_ends_a_line(a: Seq<char>, b: Seq<char>)
    requires
        !a.contains('\n'),
    ensures
        lines_of(Seq::empty()) == Seq::<Seq<char>>::empty(),
        raw_lines_of(Seq::empty()) == Seq::<Seq<char>>::empty(),
        a.len() > 0 ==> lines_of(a) == seq![a] && raw_lines_of(a) == seq![a],
        lines_of(a + seq!['\n'] + b) == seq![without_cr(a)] + lines_of(b),
        raw_lines_of(a + seq!['\n'] + b) == seq![a] + raw_lines_of(b),
{
    let s = a + seq!['\n'] + b;
    first_end_is_found(a, b, '\n');
    assert(s.take(a.len() as int) =~= a);
    assert(s.skip(a.len() as int + 1) =~= b);
}

/// Only a carriage return at the very end is taken off, and only one.
pub proof fn one_carriage_return_is_taken_off(s: Seq<char>)
    ensures
        without_cr(s.push('\r')) == s,
        s.len() > 0 && s.last() != '\r' ==> without_cr(s) == s,
        without_cr(Seq::empty()) == Seq::<char>::empty(),
{
    assert(s.push('\r').drop_last() =~= s);
}

/// A text is split at every separator: a text without one is one part.
pub proof fn a_separator_parts(a: Seq<char>, b: Seq<char>, c: char)
    requires
        !a.contains(c),
    ensures
        split_on(a, c) == seq![a],
        split_on(a + seq![c] + b, c) == seq![a] + split_on(b, c),
{
    let s = a + seq![c] + b;
    first_end_is_found(a, b, c);
    assert(s.take(a.len() as int) =~= a);
    assert(s.skip(a.len() as int + 1) =~= b);
}

/// Joined parts stand one behind the other with the separator between, and nowhere else.
pub proof fn parts_are_joined(parts: Seq<Seq<char>>, last: Seq<char>, sep: Seq<char>)
    ensures
        joined(Seq::empty(), sep) == Seq::<char>::empty(),
        parts.len() == 0 ==> joined(parts.push(last), sep) == last,
        parts.len() > 0 ==> joined(parts.push(last), sep) == joined(parts, sep) + sep + last,
{
    assert(parts.push(last).drop_last() =~= parts);
}

/// What stands behind the last of a character holds no more of it, and is the whole where there is
/// none.
pub proof fn what_is_behind_the_last(s: Seq<char>, c: char)
    ensures
        ({
            let t = after_last(s, c);
            &&& t.len() <= s.len()
            &&& t == s.skip(s.len() - t.len())
            &&& !t.contains(c)
            &&& t.len() < s.len() ==> s[s.len() - t.len() - 1] == c
        }),
    decreases s.len(),
{
    if s.len() > 0 && s.last() != c {
        let front = s.drop_last();
        what_is_behind_the_last(front, c);
        let u = after_last(front, c);
        let t = after_last(s, c);
        assert(t =~= s.skip(s.len() - t.len()));
        assert forall|k: int| 0 <= k < t.len() implies t[k] != c by {
            if k < u.len() {
                assert(t[k] == u[k]);
                assert(u.contains(u[k]));
            }
        }
    } else {
        assert(after_last(s, c) =~= s.skip(s.len() as int));
    }
}

/// A number is written digit by digit, the last digit last.
pub proof fn a_number_is_written_in_digits(n: nat, d: nat)
    requires
        d < 10,
    ensures
        decimal(d).len() == 1,
        decimal(d)[0] as int == '0' as int + d,
        n > 0 ==> decimal(10 * n + d) == decimal(n) + decimal(d),
        signed_decimal(n as int) == decimal(n),
        n > 0 ==> signed_decimal(-(n as int)) == seq!['-'] + decimal(n),
{
    if n > 0 {
        assert((10 * n + d) / 10 == n);
        assert((10 * n + d) % 10 == d);
        assert(decimal(10 * n + d) =~= decimal(n) + decimal(d));
    }
}

proof fn a_word_ends(w: Seq<char>, rest: Seq<char>)
    requires
        forall|k: int| 0 <= k < w.len() ==> !white(#[trigger] w[k]),
        rest.len() > 0 ==> white(rest[0]),
    ensures
        word_end(w + rest) == w.len(),
    decreases w.len(),
{
    if w.len() == 0 {
        assert(w + rest =~= rest);
    } else {
        assert(!white(w[0]));
        let tail = w.drop_first();
        assert forall|k: int| 0 <= k < tail.len() implies !white(#[trigger] tail[k]) by {
            assert(tail[k] == w[k + 1]);
        }
        a_word_ends(tail, rest);
        assert((w + rest).drop_first() =~= tail + rest);
        assert((w + rest)[0] == w[0]);
    }
}

/// The words of a text are what stands between white space, in order.
pub proof fn words_stand_between_white_space(c: char, w: Seq<char>, rest: Seq<char>)
    ensures
        words_of(Seq::empty()) == Seq::<Seq<char>>::empty(),
        white(c) ==> words_of(seq![c] + rest) == words_of(rest),
        w.len() > 0 && (forall|k: int| 0 <= k < w.len() ==> !white(#[trigger] w[k])) && (rest.len()
            > 0 ==> white(rest[0])) ==> words_of(w + rest) == seq![w] + words_of(rest),
{
    if white(c) {
        assert((seq![c] + rest).drop_first() =~= rest);
        assert(skip_white(seq![c] + rest) == skip_white(rest));
    }
    if w.len() > 0 && (forall|k: int| 0 <= k < w.len() ==> !white(#[trigger] w[k])) && (rest.len()
        > 0 ==> white(rest[0])) {
        let s = w + rest;
        assert(!white(w[0]));
        assert(s[0] == w[0]);
        assert(skip_white(s) == s);
        a_word_ends(w, rest);
        assert(s.take(w.len() as int) =~= w);
        assert(s.skip(w.len() as int) =~= rest);
    }
}

/// Two characters are the same letter where they are the same, or where one is the ASCII capital
/// of the other.
pub open spec fn one_letter(a: char, b: char) -> bool {
    ||| a == b
    ||| 'A' <= a <= 'Z' && b as int == a as int + 32
    ||| 'A' <= b <= 'Z' && a as int == b as int + 32
}

proof fn folding_tells_letters(a: char, b: char)
    ensures
        folded(a) == folded(b) <==> one_letter(a, b),
{
    let x = a as u32;
    let y = b as u32;
    assert(x as int == a as int);
    assert(y as int == b as int);
    assert(x == y <==> a == b);
}

/// Texts are the same but for case where each character is the same letter.
pub proof fn the_same_but_for_case(a: Seq<char>, b: Seq<char>)
    ensures
        same_letters(a, b) <==> a.len() == b.len() && forall|i: int|
            0 <= i < a.len() ==> one_letter(#[trigger] a[i], b[i]),
{
    assert forall|i: int| 0 <= i < a.len() implies (folded(#[trigger] a[i]) == folded(b[i])
        <==> one_letter(a[i], b[i])) by {
        folding_tells_letters(a[i], b[i]);
    }
}

/// A title has a space for each `_`, and a capital where a word begins; all else stands.
pub proof fn a_title_is_of_its_name(name: Seq<char>, i: int)
    requires
        0 <= i < name.len(),
    ensures
        titled(name).len() == name.len(),
        name[i] == '_' ==> titled(name)[i] == ' ',
        name[i] != '_' && i > 0 && name[i - 1] != '_' ==> titled(name)[i] == name[i],
        'a' <= name[i] <= 'z' && (i == 0 || name[i - 1] == '_') ==> titled(name)[i] as int
            == name[i] as int - 32,
        !('a' <= name[i] <= 'z') && name[i] != '_' ==> titled(name)[i] == name[i],
{
}

/// Texts agree up to a place, and there the first ends or has the smaller character.
pub open spec fn parts_before(a: Seq<char>, b: Seq<char>, n: int) -> bool {
    &&& 0 <= n <= a.len()
    &&& n < b.len()
    &&& forall|k: int| 0 <= k < n ==> #[trigger] a[k] == b[k]
    &&& n == a.len() || a[n] < b[n]
}

/// A text stands before another where they part, at the end of the first or at a smaller
/// character.
pub proof fn order_is_that_of_the_dictionary(a: Seq<char>, b: Seq<char>)
    ensures
        before(a, b) <==> exists|n: int| #[trigger] parts_before(a, b, n),
    decreases a.len(),
{
    if b.len() == 0 {
    } else if a.len() == 0 {
        assert(parts_before(a, b, 0));
    } else if a[0] != b[0] {
        if before(a, b) {
            assert(parts_before(a, b, 0));
        }
        if exists|n: int| #[trigger] parts_before(a, b, n) {
            let n = choose|n: int| #[trigger] parts_before(a, b, n);
            if n > 0 {
                assert(a[0] == b[0]);
            }
        }
    } else {
        let x = a.drop_first();
        let y = b.drop_first();
        order_is_that_of_the_dictionary(x, y);
        if before(a, b) {
            let n = choose|n: int| #[trigger] parts_before(x, y, n);
            assert forall|k: int| 0 <= k < n + 1 implies #[trigger] a[k] == b[k] by {
                if k > 0 {
                    assert(x[k - 1] == y[k - 1]);
                }
            }
            if n < x.len() {
                assert(a[n + 1] == x[n]);
            }
            assert(b[n + 1] == y[n]);
            assert(parts_before(a, b, n + 1));
        }
        if exists|n: int| #[trigger] parts_before(a, b, n) {
            let n = choose|n: int| #[trigger] parts_before(a, b, n);
            if n > 0 {
                assert forall|k: int| 0 <= k < n - 1 implies #[trigger] x[k] == y[k] by {
                    assert(a[k + 1] == b[k + 1]);
                }
                assert(parts_before(x, y, n - 1));
            }
        }
    }
}

/// What a list of strings looks like: each in its own form, with commas between.
pub proof fn a_list_is_shown_in_its_order(v: Seq<Seq<char>>)
    ensures
        list_form(Seq::empty()) == "["@ + "]"@,
        exists|forms: Seq<Seq<char>>|
            {
                &&& forms.len() == v.len()
                &&& forall|i: int| 0 <= i < v.len() ==> #[trigger] forms[i] == debug_form(v[i])
                &&& list_form(v) == "["@ + #[trigger] joined(forms, ", "@) + "]"@
            },
{
    let forms = v.map_values(|s: Seq<char>| debug_form(s));
    assert(list_form(v) == "["@ + joined(forms, ", "@) + "]"@);
    let none = Seq::<Seq<char>>::empty().map_values(|s: Seq<char>| debug_form(s));
    assert(none =~= Seq::<Seq<char>>::empty());
    assert("["@ + Seq::<char>::empty() =~= "["@);
}

/// White space is what Unicode calls so: tabs and line ends, the space, and the spaces and
/// separators beyond ASCII.
pub proof fn what_white_space_is(c: char)
    ensures
        white(c) <==> {
            let n = c as int;
            ||| 9 <= n <= 13
            ||| n == 32
            ||| n == 133
            ||| n == 160
            ||| n == 5760
            ||| 8192 <= n <= 8202
            ||| n == 8232
            ||| n == 8233
            ||| n == 8239
            ||| n == 8287
            ||| n == 12288
        },
{
}

} // verus!
