//! What the formats have in common: documents of a file, blocks of a message.
use crate::bytes::{decode_lossy, lossy_text};
use crate::domain::MemberObservation;
use crate::json::{named_trees, object_tree, parse, parsed, trees, Json, Tree};
use crate::paths::{extension, extension_of};
use crate::text::{blank, is_blank, join, joined, lines, lines_of, same, texts};
use vstd::prelude::*;

verus! {

// ---------------------------------------------------------------------------
// Documents of a file
// ---------------------------------------------------------------------------

/// The lines that are not blank, each with its number.
pub open spec fn numbered(ls: Seq<Seq<char>>) -> Seq<(int, Seq<char>)>
    decreases ls.len(),
{
    if ls.len() == 0 {
        Seq::empty()
    } else if blank(ls.last()) {
        numbered(ls.drop_last())
    } else {
        numbered(ls.drop_last()).push((ls.len() - 1, ls.last()))
    }
}

/// The documents among numbered lines, each with the number of its line.
pub open spec fn documents_among(ls: Seq<(int, Seq<char>)>) -> Seq<(int, Tree)>
    decreases ls.len(),
{
    if ls.len() == 0 {
        Seq::empty()
    } else {
        let rest = documents_among(ls.drop_last());
        match parsed(ls.last().1) {
            Some(v) => rest.push((ls.last().0, v)),
            None => rest,
        }
    }
}

/// The documents of a file of one document per line, each with the number of its line.
pub open spec fn documents(data: Seq<u8>) -> Seq<(int, Tree)> {
    documents_among(numbered(lines_of(lossy_text(data))))
}

/// Numbered lines, as a mathematical value.
pub open spec fn line_views(v: Seq<(usize, String)>) -> Seq<(int, Seq<char>)> {
    v.map_values(|l: (usize, String)| (l.0 as int, l.1@))
}

/// Numbered documents, as a mathematical value.
pub open spec fn document_views(v: Seq<(usize, Json)>) -> Seq<(int, Tree)> {
    v.map_values(|d: (usize, Json)| (d.0 as int, d.1.tree()))
}

/// The lines of a file that are not blank, each with its number.
pub fn read_jsonl_lines(data: &[u8]) -> (r: Vec<(usize, String)>)
    ensures
        line_views(r@) == numbered(lines_of(lossy_text(data@))),
{
    let text = decode_lossy(data);
    let ls = lines(text.as_str());
    let ghost all = texts(ls@);
    let mut out: Vec<(usize, String)> = Vec::new();
    let mut i: usize = 0;
    assert(all.take(0) =~= Seq::<Seq<char>>::empty());
    assert(line_views(out@) =~= Seq::<(int, Seq<char>)>::empty());
    while i < ls.len()
        invariant
            i <= ls@.len(),
            all == texts(ls@),
            line_views(out@) == numbered(all.take(i as int)),
        decreases ls@.len() - i,
    {
        assert(all.take(i + 1).drop_last() =~= all.take(i as int));
        assert(all.take(i + 1).last() == ls@[i as int]@);
        if !is_blank(ls[i].as_str()) {
            let ghost before = line_views(out@);
            let line = ls[i].clone();
            out.push((i, line));
            assert(line_views(out@) =~= before.push((i as int, line@)));
        }
        i = i + 1;
    }
    assert(all.take(i as int) =~= all);
    out
}

/// The documents of a file of one document per line, each with the number of its line.
pub fn read_documents(data: &[u8]) -> (r: Vec<(usize, Json)>)
    ensures
        document_views(r@) == documents(data@),
{
    let ls = read_jsonl_lines(data);
    let ghost all = line_views(ls@);
    let mut out: Vec<(usize, Json)> = Vec::new();
    let mut i: usize = 0;
    assert(all.take(0) =~= Seq::<(int, Seq<char>)>::empty());
    assert(document_views(out@) =~= Seq::<(int, Tree)>::empty());
    while i < ls.len()
        invariant
            i <= ls@.len(),
            all == line_views(ls@),
            document_views(out@) == documents_among(all.take(i as int)),
        decreases ls@.len() - i,
    {
        assert(all.take(i + 1).drop_last() =~= all.take(i as int));
        assert(all.take(i + 1).last() == (ls@[i as int].0 as int, ls@[i as int].1@));
        match parse(ls[i].1.as_str()) {
            Some(v) => {
                let ghost before = document_views(out@);
                out.push((ls[i].0, v));
                assert(document_views(out@) =~= before.push((ls@[i as int].0 as int, v.tree())));
            },
            None => {},
        }
        i = i + 1;
    }
    assert(all.take(i as int) =~= all);
    out
}

/// The records among lines: those that are documents.
pub open spec fn records_in(ls: Seq<Seq<char>>) -> Seq<Tree>
    decreases ls.len(),
{
    if ls.len() == 0 {
        Seq::empty()
    } else {
        match parsed(ls.last()) {
            Some(v) => records_in(ls.drop_last()).push(v),
            None => records_in(ls.drop_last()),
        }
    }
}

/// The records among lines: those that are documents.
pub fn read_records(ls: &Vec<String>) -> (r: Vec<Json>)
    ensures
        trees(r@) == records_in(texts(ls@)),
{
    let ghost all = texts(ls@);
    let mut out: Vec<Json> = Vec::new();
    let mut i: usize = 0;
    assert(all.take(0) =~= Seq::<Seq<char>>::empty());
    assert(trees(out@) =~= Seq::<Tree>::empty());
    while i < ls.len()
        invariant
            i <= ls@.len(),
            all == texts(ls@),
            trees(out@) == records_in(all.take(i as int)),
        decreases ls@.len() - i,
    {
        assert(all.take(i + 1).drop_last() =~= all.take(i as int));
        assert(all.take(i + 1).last() == ls@[i as int]@);
        match parse(ls[i].as_str()) {
            Some(v) => {
                let ghost before = trees(out@);
                out.push(v);
                assert(trees(out@) =~= before.push(v.tree()));
            },
            None => {},
        }
        i = i + 1;
    }
    assert(all.take(i as int) =~= all);
    out
}

/// The first line that is not blank.
pub open spec fn first_solid(ls: Seq<Seq<char>>) -> Option<Seq<char>>
    decreases ls.len(),
{
    if ls.len() == 0 {
        None
    } else if blank(ls[0]) {
        first_solid(ls.drop_first())
    } else {
        Some(ls[0])
    }
}

/// The document in the first line that is not blank, where it is one.
pub fn read_first_json_line(ls: &Vec<String>) -> (r: Option<Json>)
    ensures
        match (r, first_solid(texts(ls@))) {
            (Some(v), Some(line)) => parsed(line) == Some(v.tree()),
            (None, Some(line)) => parsed(line) is None,
            (Some(_), None) => false,
            (None, None) => true,
        },
{
    let ghost all = texts(ls@);
    let mut i: usize = 0;
    assert(all.skip(0) =~= all);
    while i < ls.len()
        invariant
            i <= ls@.len(),
            all == texts(ls@),
            first_solid(all) == first_solid(all.skip(i as int)),
        decreases ls@.len() - i,
    {
        assert(all.skip(i as int).drop_first() =~= all.skip(i + 1));
        assert(all.skip(i as int)[0] == ls@[i as int]@);
        if !is_blank(ls[i].as_str()) {
            return parse(ls[i].as_str());
        }
        i = i + 1;
    }
    None
}

// ---------------------------------------------------------------------------
// Blocks of a message
// ---------------------------------------------------------------------------

/// The blocks of a message whose text is prose.
#[derive(Clone, Copy, Debug, PartialEq, Eq, Structural)]
pub enum Blocks {
    /// Every block with a text.
    Any,
    /// Blocks of type `text`.
    Text,
    /// Blocks of type `input_text` or `output_text`.
    InputOrOutput,
}

impl Blocks {
    /// The block's text is prose.
    pub open spec fn admits(self, block: Tree) -> bool {
        match self {
            Blocks::Any => true,
            Blocks::Text => block.text_at("type"@) == Some("text"@),
            Blocks::InputOrOutput => block.text_at("type"@) == Some("input_text"@)
                || block.text_at("type"@) == Some("output_text"@),
        }
    }

    fn takes(self, block: &Json) -> (r: bool)
        ensures
            r == self.admits(block.tree()),
    {
        match self {
            Blocks::Any => true,
            Blocks::Text => block.text_is("type", "text"),
            Blocks::InputOrOutput => block.text_is("type", "input_text") || block.text_is(
                "type",
                "output_text",
            ),
        }
    }
}

/// The texts of the blocks that hold prose.
pub open spec fn block_texts(blocks: Seq<Tree>, b: Blocks) -> Seq<Seq<char>>
    decreases blocks.len(),
{
    if blocks.len() == 0 {
        Seq::empty()
    } else {
        let rest = block_texts(blocks.drop_last(), b);
        match blocks.last().text_at("text"@) {
            Some(t) if b.admits(blocks.last()) => rest.push(t),
            _ => rest,
        }
    }
}

/// The prose of a message's content: a text as it stands, or the texts of its blocks, one per
/// line.
pub open spec fn prose(content: Tree, b: Blocks) -> Seq<char> {
    match content {
        Tree::Text(s) => s,
        Tree::List(blocks) => joined(block_texts(blocks, b), "\n"@),
        _ => Seq::empty(),
    }
}

pub(crate) fn texts_of_blocks(blocks: &Vec<Json>, b: Blocks) -> (r: Vec<String>)
    ensures
        texts(r@) == block_texts(trees(blocks@), b),
{
    let ghost all = trees(blocks@);
    let mut out: Vec<String> = Vec::new();
    let mut i: usize = 0;
    assert(all.take(0) =~= Seq::<Tree>::empty());
    assert(texts(out@) =~= Seq::<Seq<char>>::empty());
    while i < blocks.len()
        invariant
            i <= blocks@.len(),
            all == trees(blocks@),
            texts(out@) == block_texts(all.take(i as int), b),
        decreases blocks@.len() - i,
    {
        assert(all.take(i + 1).drop_last() =~= all.take(i as int));
        assert(all.take(i + 1).last() == blocks@[i as int].tree());
        if b.takes(&blocks[i]) {
            match blocks[i].text_at("text") {
                Some(t) => {
                    let ghost before = texts(out@);
                    out.push(t.to_owned());
                    assert(texts(out@) =~= before.push(t@));
                },
                None => {},
            }
        }
        i = i + 1;
    }
    assert(all.take(i as int) =~= all);
    out
}

/// The prose of a message's content; no content holds none.
pub fn prose_of(content: Option<&Json>, b: Blocks) -> (r: String)
    ensures
        r@ == prose(
            match content {
                Some(c) => c.tree(),
                None => Tree::Null,
            },
            b,
        ),
{
    match content {
        Some(c) => match c {
            Json::Text(s) => s.clone(),
            _ => match c.as_array() {
                Some(blocks) => join(&texts_of_blocks(blocks, b), "\n"),
                None => String::new(),
            },
        },
        None => String::new(),
    }
}

/// How many blocks are of a type.
pub open spec fn typed_blocks(blocks: Seq<Tree>, kind: Seq<char>) -> nat
    decreases blocks.len(),
{
    if blocks.len() == 0 {
        0
    } else if blocks.last().text_at("type"@) == Some(kind) {
        typed_blocks(blocks.drop_last(), kind) + 1
    } else {
        typed_blocks(blocks.drop_last(), kind)
    }
}

/// How many blocks of a message's content are of a type.
pub open spec fn blocks_in(content: Tree, kind: Seq<char>) -> nat {
    match content {
        Tree::List(blocks) => typed_blocks(blocks, kind),
        _ => 0,
    }
}

/// How many blocks of a message's content are of a type.
pub fn count_blocks(content: Option<&Json>, kind: &str) -> (n: u64)
    ensures
        n == blocks_in(
            match content {
                Some(c) => c.tree(),
                None => Tree::Null,
            },
            kind@,
        ),
{
    let blocks: &Vec<Json> = match content {
        Some(c) => match c.as_array() {
            Some(blocks) => blocks,
            None => {
                return 0;
            },
        },
        None => {
            return 0;
        },
    };
    let ghost all = trees(blocks@);
    let mut n: u64 = 0;
    let mut i: usize = 0;
    assert(all.take(0) =~= Seq::<Tree>::empty());
    while i < blocks.len()
        invariant
            i <= blocks@.len(),
            all == trees(blocks@),
            n <= i,
            n == typed_blocks(all.take(i as int), kind@),
        decreases blocks@.len() - i,
    {
        assert(all.take(i + 1).drop_last() =~= all.take(i as int));
        assert(all.take(i + 1).last() == blocks@[i as int].tree());
        if blocks[i].text_is("type", kind) {
            n = n + 1;
        }
        i = i + 1;
    }
    assert(all.take(i as int) =~= all);
    n
}

/// The field `key`, where it holds a text that is not empty.
pub open spec fn solid_text_at(v: Tree, key: Seq<char>) -> Option<Seq<char>> {
    match v.text_at(key) {
        Some(s) if s.len() > 0 => Some(s),
        _ => None,
    }
}

/// The field `key`, where it holds a text that is not empty.
pub fn solid_string_at(v: &Json, key: &str) -> (r: Option<String>)
    ensures
        r.deep_view() == solid_text_at(v.tree(), key@),
{
    match v.text_at(key) {
        Some(s) => {
            if s.is_empty() {
                None
            } else {
                Some(s.to_owned())
            }
        },
        None => None,
    }
}

/// The first of two where it is there, else the second.
pub open spec fn first_of<T>(a: Option<T>, b: Option<T>) -> Option<T> {
    match a {
        Some(x) => Some(x),
        None => b,
    }
}

/// The first of two where it is there, else the second.
pub fn first_text(a: Option<String>, b: Option<String>) -> (r: Option<String>)
    ensures
        r == first_of(a, b),
{
    match a {
        Some(x) => Some(x),
        None => b,
    }
}

/// Whether field `key` is true.
pub(crate) fn is_true(v: &Json, key: &str) -> (r: bool)
    ensures
        r == (v.tree().truth_at(key@) == Some(true)),
{
    match v.get(key) {
        Some(b) => match b.as_bool() {
            Some(b) => b,
            None => false,
        },
        None => false,
    }
}

/// An object without fields.
pub(crate) fn empty_object() -> (r: Json)
    ensures
        r.tree() == Tree::Object(Seq::empty()),
{
    broadcast use object_tree;

    let fields: Vec<(String, Json)> = Vec::new();
    assert(named_trees(fields@) =~= Seq::<(Seq<char>, Tree)>::empty());
    Json::Object(fields)
}

/// The file name of a transcript of one document per line.
pub open spec fn jsonl_file(name: Seq<char>) -> bool {
    extension_of(name) == Some("jsonl"@)
}

/// Whether a file name is that of a transcript of one document per line.
pub(crate) fn is_jsonl_file(name: &str) -> (r: bool)
    ensures
        r == jsonl_file(name@),
{
    match extension(name) {
        Some(e) => same(e.as_str(), "jsonl"),
        None => false,
    }
}

// ---------------------------------------------------------------------------
// Counts
// ---------------------------------------------------------------------------

/// Tool calls, counted.
pub open spec fn tool_calls_seen(n: u64) -> MemberObservation {
    MemberObservation { tool_calls: n, ..MemberObservation::nothing() }
}

/// A tool call, counted.
pub open spec fn one_tool_call() -> MemberObservation {
    tool_calls_seen(1)
}

/// A compaction, counted.
pub open spec fn one_compaction() -> MemberObservation {
    MemberObservation { compactions: 1, ..MemberObservation::nothing() }
}

/// A side activity, counted.
pub open spec fn one_side_activity() -> MemberObservation {
    MemberObservation { side_activity: 1, ..MemberObservation::nothing() }
}

/// Counts of a line.
pub(crate) fn observed(tool_calls: u64, compactions: u64, side_activity: u64) -> (r:
    MemberObservation)
    ensures
        r == (MemberObservation { tool_calls, tool_errors: 0, compactions, side_activity }),
{
    MemberObservation { tool_calls, tool_errors: 0, compactions, side_activity }
}

// ---------------------------------------------------------------------------
// Laws
// ---------------------------------------------------------------------------

/// The texts of blocks stand in the order of the blocks, and a block that is no prose, or has no
/// text, adds none.
pub proof fn blocks_speak_in_order(a: Seq<Tree>, c: Seq<Tree>, x: Tree, b: Blocks)
    ensures
        block_texts(a + c, b) == block_texts(a, b) + block_texts(c, b),
        x.text_at("text"@) matches Some(t) && (b is Any || (b is Text && x.text_at("type"@) == Some(
            "text"@,
        )) || (b is InputOrOutput && (x.text_at("type"@) == Some("input_text"@) || x.text_at(
            "type"@,
        ) == Some("output_text"@)))) ==> block_texts(seq![x], b) == seq![x.text_at("text"@)->0],
        !(x.text_at("text"@) is Some && (b is Any || (b is Text && x.text_at("type"@) == Some(
            "text"@,
        )) || (b is InputOrOutput && (x.text_at("type"@) == Some("input_text"@) || x.text_at(
            "type"@,
        ) == Some("output_text"@))))) ==> block_texts(seq![x], b).len() == 0,
    decreases c.len(),
{
    reveal_with_fuel(block_texts, 2);
    assert(seq![x].drop_last() =~= Seq::<Tree>::empty());
    if x.text_at("text"@) is Some && b.admits(x) {
        assert(block_texts(seq![x], b) =~= seq![x.text_at("text"@)->0]);
    }
    if c.len() == 0 {
        assert(a + c =~= a);
    } else {
        blocks_speak_in_order(a, c.drop_last(), x, b);
        assert((a + c).drop_last() =~= a + c.drop_last());
        assert((a + c).last() == c.last());
    }
    assert(block_texts(a + c, b) =~= block_texts(a, b) + block_texts(c, b));
}

/// The prose of a content is the text itself, or the texts of its blocks with a line end between
/// them; anything else holds none.
pub proof fn prose_is_what_the_content_says(content: Tree, b: Blocks)
    ensures
        match content {
            Tree::Text(s) => prose(content, b) == s,
            Tree::List(blocks) => prose(content, b) == joined(block_texts(blocks, b), "\n"@),
            _ => prose(content, b).len() == 0,
        },
{
}

/// Blocks are counted each on its own, by their type.
pub proof fn blocks_are_counted_by_type(a: Seq<Tree>, c: Seq<Tree>, x: Tree, kind: Seq<char>)
    ensures
        blocks_in(Tree::List(a + c), kind) == blocks_in(Tree::List(a), kind) + blocks_in(
            Tree::List(c),
            kind,
        ),
        blocks_in(Tree::List(seq![x]), kind) == (if x.text_at("type"@) == Some(kind) {
            1nat
        } else {
            0
        }),
        forall|s: Seq<char>| #[trigger] blocks_in(Tree::Text(s), kind) == 0,
        blocks_in(Tree::Null, kind) == 0,
    decreases c.len(),
{
    reveal_with_fuel(typed_blocks, 2);
    assert(seq![x].drop_last() =~= Seq::<Tree>::empty());
    if c.len() == 0 {
        assert(a + c =~= a);
    } else {
        blocks_are_counted_by_type(a, c.drop_last(), x, kind);
        assert((a + c).drop_last() =~= a + c.drop_last());
        assert((a + c).last() == c.last());
    }
}

/// A field counts where it holds a text that is not empty, and the first of two values where it is
/// there.
pub proof fn a_solid_field_is_not_empty(v: Tree, key: Seq<char>, a: Option<Seq<char>>, c: Option<
    Seq<char>,
>)
    ensures
        match solid_text_at(v, key) {
            Some(s) => s.len() > 0 && v.field(key) == Some(Tree::Text(s)),
            None => forall|s: Seq<char>|
                s.len() > 0 ==> #[trigger] v.field(key) != Some(Tree::Text(s)),
        },
        a is Some ==> first_of(a, c) == a,
        a is None ==> first_of(a, c) == c,
{
}

/// What a line counts is what it is told to and nothing else.
pub proof fn counts_are_of_one_sort(n: u64)
    ensures
        tool_calls_seen(n).tool_calls == n,
        tool_calls_seen(n).tool_errors == 0,
        tool_calls_seen(n).compactions == 0,
        tool_calls_seen(n).side_activity == 0,
        one_tool_call() == tool_calls_seen(1),
        one_compaction().compactions == 1,
        one_compaction().tool_calls == 0,
        one_compaction().tool_errors == 0,
        one_compaction().side_activity == 0,
        one_side_activity().side_activity == 1,
        one_side_activity().tool_calls == 0,
        one_side_activity().tool_errors == 0,
        one_side_activity().compactions == 0,
{
}

/// The documents of a file are those of its lines that are not blank and can be read, in order,
/// each with the number of its line.
pub proof fn documents_stand_in_their_lines(ls: Seq<Seq<char>>, line: Seq<char>)
    ensures
        documents_among(numbered(ls.push(line))) == (match parsed(line) {
            Some(v) if !blank(line) => documents_among(numbered(ls)).push((ls.len() as int, v)),
            _ => documents_among(numbered(ls)),
        }),
        documents_among(numbered(Seq::empty())).len() == 0,
{
    assert(ls.push(line).drop_last() =~= ls);
    assert(ls.push(line).last() == line);
    let before = numbered(ls);
    if !blank(line) {
        let all = before.push((ls.len() as int, line));
        assert(all.drop_last() =~= before);
        assert(numbered(ls.push(line)) == all);
    }
}

/// The documents of a file are those of its lines, as its bytes read.
pub proof fn documents_are_of_the_file(data: Seq<u8>)
    ensures
        documents(data) == documents_among(numbered(lines_of(lossy_text(data)))),
{
}

/// Records stand in the order of their lines, and a line that cannot be read is none.
pub proof fn records_stand_in_their_order(ls: Seq<Seq<char>>, line: Seq<char>)
    ensures
        records_in(ls.push(line)) == (match parsed(line) {
            Some(v) => records_in(ls).push(v),
            None => records_in(ls),
        }),
        records_in(Seq::empty()).len() == 0,
{
    assert(ls.push(line).drop_last() =~= ls);
}

/// The first line that is not blank is the first of those.
pub proof fn the_first_solid_line_is_first(ls: Seq<Seq<char>>)
    ensures
        match first_solid(ls) {
            Some(line) => !blank(line) && exists|i: int|
                0 <= i < ls.len() && #[trigger] ls[i] == line && forall|j: int|
                    0 <= j < i ==> blank(#[trigger] ls[j]),
            None => forall|i: int| 0 <= i < ls.len() ==> blank(#[trigger] ls[i]),
        },
    decreases ls.len(),
{
    if ls.len() > 0 {
        if blank(ls[0]) {
            let rest = ls.drop_first();
            the_first_solid_line_is_first(rest);
            assert(forall|i: int| 0 < i < ls.len() ==> #[trigger] ls[i] == rest[i - 1]);
            match first_solid(rest) {
                Some(line) => {
                    let i = choose|i: int|
                        0 <= i < rest.len() && #[trigger] rest[i] == line && forall|j: int|
                            0 <= j < i ==> blank(#[trigger] rest[j]);
                    assert(ls[i + 1] == line);
                    assert forall|j: int| 0 <= j < i + 1 implies blank(#[trigger] ls[j]) by {
                        if j > 0 {
                            assert(blank(rest[j - 1]));
                        }
                    }
                },
                None => {},
            }
        } else {
            assert(ls[0] == first_solid(ls)->0);
        }
    }
}

} // verus!
