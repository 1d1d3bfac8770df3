//! JSON documents: the mathematical tree, the executable value, the parser.
use crate::text::same;
use vstd::prelude::*;

verus! {

/// A JSON document as a mathematical value. A number is known by its `i64` value, where it
/// has one; an object is the sequence of its fields.
pub enum Tree {
    Null,
    Bool(bool),
    Number(Option<i64>),
    Text(Seq<char>),
    List(Seq<Tree>),
    Object(Seq<(Seq<char>, Tree)>),
}

/// The value of the first field named `key`.
pub open spec fn lookup(fields: Seq<(Seq<char>, Tree)>, key: Seq<char>) -> Option<Tree>
    decreases fields.len(),
{
    if fields.len() == 0 {
        None
    } else if fields[0].0 == key {
        Some(fields[0].1)
    } else {
        lookup(fields.drop_first(), key)
    }
}

impl Tree {
    /// The field `key` of an object.
    pub open spec fn field(self, key: Seq<char>) -> Option<Tree> {
        match self {
            Tree::Object(fields) => lookup(fields, key),
            _ => None,
        }
    }

    /// Whether the document is an object with a field `key`.
    pub open spec fn has(self, key: Seq<char>) -> bool {
        self.field(key) is Some
    }

    /// The characters of a text.
    pub open spec fn text(self) -> Option<Seq<char>> {
        match self {
            Tree::Text(s) => Some(s),
            _ => None,
        }
    }

    /// The elements of a list.
    pub open spec fn items(self) -> Option<Seq<Tree>> {
        match self {
            Tree::List(items) => Some(items),
            _ => None,
        }
    }

    /// The value of a whole number.
    pub open spec fn whole(self) -> Option<i64> {
        match self {
            Tree::Number(n) => n,
            _ => None,
        }
    }

    /// The value of a boolean.
    pub open spec fn truth(self) -> Option<bool> {
        match self {
            Tree::Bool(b) => Some(b),
            _ => None,
        }
    }

    /// The text in field `key`.
    pub open spec fn text_at(self, key: Seq<char>) -> Option<Seq<char>> {
        match self.field(key) {
            Some(t) => t.text(),
            None => None,
        }
    }

    /// The list in field `key`.
    pub open spec fn items_at(self, key: Seq<char>) -> Option<Seq<Tree>> {
        match self.field(key) {
            Some(t) => t.items(),
            None => None,
        }
    }

    /// The whole number in field `key`.
    pub open spec fn whole_at(self, key: Seq<char>) -> Option<i64> {
        match self.field(key) {
            Some(t) => t.whole(),
            None => None,
        }
    }

    /// The boolean in field `key`.
    pub open spec fn truth_at(self, key: Seq<char>) -> Option<bool> {
        match self.field(key) {
            Some(t) => t.truth(),
            None => None,
        }
    }

    /// Field `b` of the object in field `a`.
    pub open spec fn inner(self, a: Seq<char>, b: Seq<char>) -> Option<Tree> {
        match self.field(a) {
            Some(t) => t.field(b),
            None => None,
        }
    }

    /// The field `key`, or null where there is none.
    pub open spec fn field_or_null(self, key: Seq<char>) -> Tree {
        match self.field(key) {
            Some(t) => t,
            None => Tree::Null,
        }
    }
}

/// A JSON document.
pub enum Json {
    Null,
    Bool(bool),
    Number(Option<i64>),
    Text(String),
    List(Vec<Json>),
    Object(Vec<(String, Json)>),
}

impl Json {
    /// The document as a mathematical value.
    pub open spec fn tree(self) -> Tree
        decreases self,
    {
        match self {
            Json::Null => Tree::Null,
            Json::Bool(b) => Tree::Bool(b),
            Json::Number(n) => Tree::Number(n),
            Json::Text(s) => Tree::Text(s@),
            Json::List(items) => Tree::List(
                Seq::new(
                    items@.len(),
                    |i: int|
                        if 0 <= i < items@.len() {
                            items@[i].tree()
                        } else {
                            Tree::Null
                        },
                ),
            ),
            Json::Object(fields) => Tree::Object(
                Seq::new(
                    fields@.len(),
                    |i: int|
                        if 0 <= i < fields@.len() {
                            (fields@[i].0@, fields@[i].1.tree())
                        } else {
                            (Seq::empty(), Tree::Null)
                        },
                ),
            ),
        }
    }
}

/// The trees of a list of documents.
pub open spec fn trees(v: Seq<Json>) -> Seq<Tree> {
    v.map_values(|j: Json| j.tree())
}

/// The named trees of a list of fields.
pub open spec fn named_trees(v: Seq<(String, Json)>) -> Seq<(Seq<char>, Tree)> {
    v.map_values(|f: (String, Json)| (f.0@, f.1.tree()))
}

/// The document that a list is.
pub broadcast proof fn list_tree(items: Vec<Json>)
    ensures
        #[trigger] Json::List(items).tree() == Tree::List(trees(items@)),
{
    assert(Json::List(items).tree()->List_0 =~= trees(items@));
}

/// The document that an object is.
pub broadcast proof fn object_tree(fields: Vec<(String, Json)>)
    ensures
        #[trigger] Json::Object(fields).tree() == Tree::Object(named_trees(fields@)),
{
    assert(Json::Object(fields).tree()->Object_0 =~= named_trees(fields@));
}

impl Json {
    /// The field `key` of an object.
    pub fn get(&self, key: &str) -> (r: Option<&Json>)
        ensures
            match r {
                Some(v) => self.tree().field(key@) == Some(v.tree()),
                None => self.tree().field(key@) is None,
            },
    {
        broadcast use {list_tree, object_tree};

        match self {
            Json::Object(fields) => {
                let ghost all = named_trees(fields@);
                let mut i: usize = 0;
                assert(all.skip(0) =~= all);
                while i < fields.len()
                    invariant
                        i <= fields@.len(),
                        all == named_trees(fields@),
                        self.tree() == Tree::Object(all),
                        lookup(all, key@) == lookup(all.skip(i as int), key@),
                    decreases fields@.len() - i,
                {
                    assert(all.skip(i as int)[0] == all[i as int]);
                    assert(all.skip(i as int).drop_first() =~= all.skip(i + 1));
                    if same(fields[i].0.as_str(), key) {
                        return Some(&fields[i].1);
                    }
                    i = i + 1;
                }
                None
            },
            _ => None,
        }
    }

    /// Field `b` of the object in field `a`.
    pub fn inner(&self, a: &str, b: &str) -> (r: Option<&Json>)
        ensures
            match r {
                Some(v) => self.tree().inner(a@, b@) == Some(v.tree()),
                None => self.tree().inner(a@, b@) is None,
            },
    {
        match self.get(a) {
            Some(v) => v.get(b),
            None => None,
        }
    }

    /// Whether the document is an object with a field `key`.
    pub fn has(&self, key: &str) -> (r: bool)
        ensures
            r == self.tree().has(key@),
    {
        self.get(key).is_some()
    }

    /// The characters of a text.
    pub fn as_str(&self) -> (r: Option<&str>)
        ensures
            r.deep_view() == self.tree().text(),
    {
        match self {
            Json::Text(s) => Some(s.as_str()),
            _ => None,
        }
    }

    /// The elements of a list.
    pub fn as_array(&self) -> (r: Option<&Vec<Json>>)
        ensures
            match r {
                Some(v) => self.tree().items() == Some(trees(v@)),
                None => self.tree().items() is None,
            },
    {
        broadcast use {list_tree, object_tree};

        match self {
            Json::List(v) => Some(v),
            _ => None,
        }
    }

    /// The value of a whole number.
    pub fn as_i64(&self) -> (r: Option<i64>)
        ensures
            r == self.tree().whole(),
    {
        match self {
            Json::Number(n) => *n,
            _ => None,
        }
    }

    /// The value of a boolean.
    pub fn as_bool(&self) -> (r: Option<bool>)
        ensures
            r == self.tree().truth(),
    {
        match self {
            Json::Bool(b) => Some(*b),
            _ => None,
        }
    }

    /// Whether the document is an object.
    pub fn is_object(&self) -> (r: bool)
        ensures
            r == (self.tree() is Object),
    {
        matches!(self, Json::Object(_))
    }

    /// The text in field `key`.
    pub fn text_at(&self, key: &str) -> (r: Option<&str>)
        ensures
            r.deep_view() == self.tree().text_at(key@),
    {
        match self.get(key) {
            Some(v) => v.as_str(),
            None => None,
        }
    }

    /// The text in field `key`, as a string of its own.
    pub fn string_at(&self, key: &str) -> (r: Option<String>)
        ensures
            r.deep_view() == self.tree().text_at(key@),
    {
        match self.text_at(key) {
            Some(s) => Some(s.to_owned()),
            None => None,
        }
    }

    /// Whether field `key` holds exactly the text `value`.
    pub fn text_is(&self, key: &str, value: &str) -> (r: bool)
        ensures
            r == (self.tree().text_at(key@) == Some(value@)),
    {
        match self.text_at(key) {
            Some(s) => same(s, value),
            None => false,
        }
    }

    /// The list in field `key`.
    pub fn items_at(&self, key: &str) -> (r: Option<&Vec<Json>>)
        ensures
            match r {
                Some(v) => self.tree().items_at(key@) == Some(trees(v@)),
                None => self.tree().items_at(key@) is None,
            },
    {
        match self.get(key) {
            Some(v) => v.as_array(),
            None => None,
        }
    }
}

/// A copy of a document.
pub fn copy_json(j: &Json) -> (r: Json)
    ensures
        r.tree() == j.tree(),
    decreases j,
{
    broadcast use {list_tree, object_tree};

    match j {
        Json::Null => Json::Null,
        Json::Bool(b) => Json::Bool(*b),
        Json::Number(n) => Json::Number(*n),
        Json::Text(s) => Json::Text(s.clone()),
        Json::List(items) => {
            let mut out: Vec<Json> = Vec::new();
            let mut i: usize = 0;
            while i < items.len()
                invariant
                    i <= items@.len(),
                    *j == Json::List(*items),
                    out@.len() == i,
                    forall|k: int| 0 <= k < i ==> #[trigger] out@[k].tree() == items@[k].tree(),
                decreases items@.len() - i,
            {
                assert(decreases_to!(*j => j->List_0));
                assert(decreases_to!(j->List_0 => j->List_0@));
                assert(decreases_to!(j->List_0@ => j->List_0@[i as int]));
                out.push(copy_json(&items[i]));
                i = i + 1;
            }
            assert(trees(out@) =~= trees(items@));
            Json::List(out)
        },
        Json::Object(fields) => {
            let mut out: Vec<(String, Json)> = Vec::new();
            let mut i: usize = 0;
            while i < fields.len()
                invariant
                    i <= fields@.len(),
                    *j == Json::Object(*fields),
                    out@.len() == i,
                    forall|k: int|
                        0 <= k < i ==> (#[trigger] out@[k]).0@ == fields@[k].0@
                            && out@[k].1.tree() == fields@[k].1.tree(),
                decreases fields@.len() - i,
            {
                assert(decreases_to!(*j => j->Object_0));
                assert(decreases_to!(j->Object_0 => j->Object_0@));
                assert(decreases_to!(j->Object_0@ => j->Object_0@[i as int]));
                assert(decreases_to!(fields@[i as int] => fields@[i as int].1));
                out.push((fields[i].0.clone(), copy_json(&fields[i].1)));
                i = i + 1;
            }
            assert(named_trees(out@) =~= named_trees(fields@));
            Json::Object(out)
        },
    }
}

// ---------------------------------------------------------------------------
// Parsing
// ---------------------------------------------------------------------------

/// A JSON value as the parser hands it out.
#[verifier::external_type_specification]
#[verifier::external_body]
pub struct ExValue(serde_json::Value);

/// The document that a parsed value holds.
pub uninterp spec fn tree_of(v: serde_json::Value) -> Tree;

/// What `serde_json::from_str` reads from a text: a document, or what it says is wrong.
pub uninterp spec fn document_in(text: Seq<char>) -> Result<Tree, Seq<char>>;

/// The document that a text holds, where it is one.
pub open spec fn parsed(text: Seq<char>) -> Option<Tree> {
    match document_in(text) {
        Ok(t) => Some(t),
        Err(_) => None,
    }
}

/// One level of a parsed value.
pub(crate) enum Layer {
    Null,
    Bool(bool),
    Number(Option<i64>),
    Text(String),
    List(Vec<serde_json::Value>),
    Object(Vec<(String, serde_json::Value)>),
}

/// The document that a level and the values below it make up.
pub(crate) open spec fn layer_tree(l: Layer) -> Tree {
    match l {
        Layer::Null => Tree::Null,
        Layer::Bool(b) => Tree::Bool(b),
        Layer::Number(n) => Tree::Number(n),
        Layer::Text(s) => Tree::Text(s@),
        Layer::List(v) => Tree::List(v@.map_values(|x: serde_json::Value| tree_of(x))),
        Layer::Object(v) => Tree::Object(
            v@.map_values(|f: (String, serde_json::Value)| (f.0@, tree_of(f.1))),
        ),
    }
}

/// The variants of `serde_json::Value`, taken apart: the level that is returned, with the
/// values below it, is the document that the value holds. A number is known by what
/// `serde_json::Number::as_i64` says of it.
#[verifier::external_body]
fn open_value(v: serde_json::Value) -> (l: Layer)
    ensures
        layer_tree(l) == tree_of(v),
{
    match v {
        serde_json::Value::Null => Layer::Null,
        serde_json::Value::Bool(b) => Layer::Bool(b),
        serde_json::Value::Number(n) => Layer::Number(n.as_i64()),
        serde_json::Value::String(s) => Layer::Text(s),
        serde_json::Value::Array(items) => Layer::List(items),
        serde_json::Value::Object(fields) => Layer::Object(fields.into_iter().collect()),
    }
}

/// `serde_json::from_str` into a `serde_json::Value`: whether the text is a document, which, and
/// how the error is worded where it is none, depends on the text alone.
#[verifier::external_body]
fn read_value(text: &str) -> (r: Result<serde_json::Value, String>)
    ensures
        match r {
            Ok(v) => document_in(text@) == Ok::<Tree, Seq<char>>(tree_of(v)),
            Err(e) => document_in(text@) == Err::<Tree, Seq<char>>(e@),
        },
{
    serde_json::from_str(text).map_err(|e: serde_json::Error| e.to_string())
}

/// A parsed value as a document of this library.
fn json_of(v: serde_json::Value) -> (j: Json)
    ensures
        j.tree() == tree_of(v),
    decreases tree_of(v),
{
    broadcast use {list_tree, object_tree};

    match open_value(v) {
        Layer::Null => Json::Null,
        Layer::Bool(b) => Json::Bool(b),
        Layer::Number(n) => Json::Number(n),
        Layer::Text(s) => Json::Text(s),
        Layer::List(values) => {
            let ghost all = values@;
            let mut items: Vec<Json> = Vec::new();
            for value in it: values
                invariant
                    it.seq() == all,
                    tree_of(v) == Tree::List(all.map_values(|x: serde_json::Value| tree_of(x))),
                    items@.len() == it.index(),
                    forall|k: int|
                        0 <= k < items@.len() ==> #[trigger] items@[k].tree() == tree_of(all[k]),
            {
                let ghost kids = all.map_values(|x: serde_json::Value| tree_of(x));
                assert(kids[it.index() as int] == tree_of(value));
                assert(decreases_to!(tree_of(v) => tree_of(v)->List_0));
                assert(decreases_to!(tree_of(v)->List_0 => tree_of(v)->List_0[it.index() as int]));
                items.push(json_of(value));
            }
            assert(trees(items@) =~= all.map_values(|x: serde_json::Value| tree_of(x)));
            Json::List(items)
        },
        Layer::Object(values) => {
            let ghost all = values@;
            let mut fields: Vec<(String, Json)> = Vec::new();
            for field in it: values
                invariant
                    it.seq() == all,
                    tree_of(v) == Tree::Object(
                        all.map_values(|f: (String, serde_json::Value)| (f.0@, tree_of(f.1))),
                    ),
                    fields@.len() == it.index(),
                    forall|k: int|
                        0 <= k < fields@.len() ==> (#[trigger] fields@[k]).0@ == all[k].0@
                            && fields@[k].1.tree() == tree_of(all[k].1),
            {
                let ghost kids = all.map_values(
                    |f: (String, serde_json::Value)| (f.0@, tree_of(f.1)),
                );
                assert(kids[it.index() as int].1 == tree_of(field.1));
                assert(decreases_to!(tree_of(v) => tree_of(v)->Object_0));
                assert(decreases_to!(tree_of(v)->Object_0 => tree_of(v)->Object_0[it.index() as int]));
                assert(decreases_to!(kids[it.index() as int] => kids[it.index() as int].1));
                fields.push((field.0, json_of(field.1)));
            }
            assert(named_trees(fields@) =~= all.map_values(
                |f: (String, serde_json::Value)| (f.0@, tree_of(f.1)),
            ));
            Json::Object(fields)
        },
    }
}

/// The document that a text holds, where it is one.
pub fn parse(text: &str) -> (r: Option<Json>)
    ensures
        match r {
            Some(j) => parsed(text@) == Some(j.tree()),
            None => parsed(text@) is None,
        },
{
    match parse_document(text) {
        Ok(j) => Some(j),
        Err(_) => None,
    }
}

/// The document that a text holds, or what is wrong with it.
pub fn parse_document(text: &str) -> (r: Result<Json, String>)
    ensures
        match r {
            Ok(j) => document_in(text@) == Ok::<Tree, Seq<char>>(j.tree()),
            Err(e) => document_in(text@) == Err::<Tree, Seq<char>>(e@),
        },
{
    match read_value(text) {
        Ok(v) => Ok(json_of(v)),
        Err(e) => Err(e),
    }
}

// ---------------------------------------------------------------------------
// Laws
// ---------------------------------------------------------------------------

/// A field of an object is the first of its name; there is none exactly where no field has the
/// name, and nothing but an object has fields.
pub proof fn the_first_field_counts(fields: Seq<(Seq<char>, Tree)>, key: Seq<char>)
    ensures
        match Tree::Object(fields).field(key) {
            Some(t) => exists|i: int|
                0 <= i < fields.len() && (#[trigger] fields[i]).0 == key && fields[i].1 == t
                    && forall|j: int| 0 <= j < i ==> (#[trigger] fields[j]).0 != key,
            None => forall|i: int| 0 <= i < fields.len() ==> (#[trigger] fields[i]).0 != key,
        },
        Tree::Null.field(key) is None,
        forall|b: bool| Tree::Bool(b).field(key) is None,
        forall|n: Option<i64>| Tree::Number(n).field(key) is None,
        forall|s: Seq<char>| Tree::Text(s).field(key) is None,
        forall|l: Seq<Tree>| Tree::List(l).field(key) is None,
    decreases fields.len(),
{
    if fields.len() > 0 {
        if fields[0].0 == key {
            assert(fields[0].1 == lookup(fields, key)->0);
        } else {
            let rest = fields.drop_first();
            the_first_field_counts(rest, key);
            assert(Tree::Object(rest).field(key) == lookup(rest, key));
            assert(forall|i: int| 0 < i < fields.len() ==> #[trigger] fields[i] == rest[i - 1]);
            match lookup(rest, key) {
                Some(t) => {
                    let i = choose|i: int|
                        0 <= i < rest.len() && (#[trigger] rest[i]).0 == key && rest[i].1 == t
                            && forall|j: int| 0 <= j < i ==> (#[trigger] rest[j]).0 != key;
                    assert(fields[i + 1].0 == key);
                    assert forall|j: int| 0 <= j < i + 1 implies (#[trigger] fields[j]).0
                        != key by {
                        if j > 0 {
                            assert(rest[j - 1].0 != key);
                        }
                    }
                },
                None => {},
            }
        }
    }
}

/// What a field holds is read as what it is: a text as a text, a list as a list, a whole number
/// as a number and a truth value as one; anything else in its place is nothing.
pub proof fn a_field_is_read_as_what_it_is(v: Tree, key: Seq<char>, inside: Seq<char>)
    ensures
        forall|s: Seq<char>|
            v.text_at(key) == Some(s) <==> #[trigger] v.field(key) == Some(Tree::Text(s)),
        forall|l: Seq<Tree>|
            v.items_at(key) == Some(l) <==> #[trigger] v.field(key) == Some(Tree::List(l)),
        forall|n: i64|
            v.whole_at(key) == Some(n) <==> #[trigger] v.field(key) == Some(Tree::Number(Some(n))),
        forall|b: bool|
            v.truth_at(key) == Some(b) <==> #[trigger] v.field(key) == Some(Tree::Bool(b)),
        v.has(key) <==> v.field(key) is Some,
        v.field(key) matches Some(t) ==> v.field_or_null(key) == t && v.inner(key, inside)
            == t.field(inside),
        v.field(key) is None ==> v.field_or_null(key) == Tree::Null && v.inner(key, inside)
            is None,
{
}

/// A document is seen as it stands: a list item by item, an object field by field.
pub proof fn a_document_is_seen_as_it_stands(items: Vec<Json>, fields: Vec<(String, Json)>, s: String)
    ensures
        Json::Text(s).tree() == Tree::Text(s@),
        Json::List(items).tree() matches Tree::List(l) && l.len() == items@.len() && forall|i: int|
            0 <= i < items@.len() ==> #[trigger] l[i] == items@[i].tree(),
        Json::Object(fields).tree() matches Tree::Object(l) && l.len() == fields@.len() && forall|
            i: int,
        |
            0 <= i < fields@.len() ==> (#[trigger] l[i]).0 == fields@[i].0@ && l[i].1
                == fields@[i].1.tree(),
        trees(items@).len() == items@.len(),
        forall|i: int| 0 <= i < items@.len() ==> #[trigger] trees(items@)[i] == items@[i].tree(),
{
}

} // verus!
