//! File names and the files that discovery comes across.
use crate::text::{
    after_last, ascending, chars_of, insert_text, same, string_of, tail_after, texts,
    what_is_behind_the_last,
};
use vstd::prelude::*;

verus! {

/// Where the last dot of a name stands, where it parts a stem from an extension: not in first
/// place, and not in the name `..`.
pub open spec fn dot_of(name: Seq<char>) -> Option<int> {
    let dot = name.len() - after_last(name, '.').len() - 1;
    if dot <= 0 || name == ".."@ {
        None
    } else {
        Some(dot)
    }
}

/// A file name without its extension.
pub open spec fn stem_of(name: Seq<char>) -> Seq<char> {
    match dot_of(name) {
        Some(dot) => name.take(dot),
        None => name,
    }
}

/// The extension of a file name.
pub open spec fn extension_of(name: Seq<char>) -> Option<Seq<char>> {
    match dot_of(name) {
        Some(dot) => Some(name.skip(dot + 1)),
        None => None,
    }
}

proof fn after_last_bound(s: Seq<char>, c: char)
    ensures
        after_last(s, c).len() <= s.len(),
    decreases s.len(),
{
    if s.len() > 0 && s.last() != c {
        after_last_bound(s.drop_last(), c);
    }
}

fn dot(name: &str) -> (r: Option<usize>)
    ensures
        match r {
            Some(d) => dot_of(name@) == Some(d as int) && 0 < d < name@.len(),
            None => dot_of(name@) is None,
        },
{
    let v = chars_of(name);
    let t = chars_of(tail_after(name, '.').as_str());
    proof {
        after_last_bound(name@, '.');
    }
    if crate::text::same(name, "..") {
        return None;
    }
    if v.len() - t.len() < 2 {
        return None;
    }
    Some(v.len() - t.len() - 1)
}

/// A file name without its extension.
pub fn file_stem(name: &str) -> (r: String)
    ensures
        r@ == stem_of(name@),
{
    match dot(name) {
        Some(d) => {
            let v = chars_of(name);
            assert(v@.subrange(0, d as int) =~= name@.take(d as int));
            string_of(&v, 0, d)
        },
        None => name.to_owned(),
    }
}

/// The extension of a file name.
pub fn extension(name: &str) -> (r: Option<String>)
    ensures
        r.deep_view() == extension_of(name@),
{
    match dot(name) {
        Some(d) => {
            let v = chars_of(name);
            let n: usize = v.len();
            assert(v@.subrange(d + 1, n as int) =~= name@.skip(d + 1));
            Some(string_of(&v, d + 1, n))
        },
        None => None,
    }
}

/// The path of something in a directory.
pub open spec fn child_of(dir: Seq<char>, name: Seq<char>) -> Seq<char> {
    if dir.len() == 0 || dir.last() == '/' {
        dir + name
    } else {
        dir + seq!['/'] + name
    }
}

/// The path of something in a directory.
pub fn child_path(dir: &str, name: &str) -> (r: String)
    ensures
        r@ == child_of(dir@, name@),
{
    let v = chars_of(dir);
    let n: usize = v.len();
    let mut path: String = dir.to_owned();
    if n > 0 && v[n - 1] != '/' {
        path.push('/');
        assert(path@ =~= dir@ + seq!['/']);
    }
    path.append(name);
    path
}

/// A directory above a file.
pub struct FoundDir {
    pub path: String,
    pub name: String,
}

/// A file that discovery came across: where it stands, with the directories above it from the
/// nearest on; when it was modified; its bytes; and its lines up to the first that is not
/// UTF-8.
pub struct FoundFile {
    pub path: String,
    pub name: String,
    pub ancestors: Vec<FoundDir>,
    pub modified: Option<String>,
    pub head: Vec<String>,
    pub data: Vec<u8>,
}

/// The names with an extension among file names.
pub open spec fn with_extension(names: Seq<Seq<char>>, ext: Seq<char>) -> Set<Seq<char>> {
    Set::new(|n: Seq<char>| names.contains(n) && extension_of(n) == Some(ext))
}

/// The names with an extension among file names, in order.
pub fn named_with(names: &Vec<String>, ext: &str) -> (r: Vec<String>)
    ensures
        ascending(texts(r@)),
        texts(r@).to_set() == with_extension(texts(names@), ext@),
{
    let ghost all = texts(names@);
    let mut files: Vec<String> = Vec::new();
    let mut i: usize = 0;
    assert(all.take(0) =~= Seq::<Seq<char>>::empty());
    assert(texts(files@).to_set() =~= with_extension(all.take(0), ext@));
    while i < names.len()
        invariant
            i <= names@.len(),
            all == texts(names@),
            ascending(texts(files@)),
            texts(files@).to_set() == with_extension(all.take(i as int), ext@),
        decreases names@.len() - i,
    {
        let ghost so_far = all.take(i as int);
        let ghost upto = all.take(i + 1);
        assert(upto =~= so_far.push(all[i as int]));
        let wanted: bool = match extension(names[i].as_str()) {
            Some(x) => same(x.as_str(), ext),
            None => false,
        };
        if wanted {
            insert_text(&mut files, names[i].as_str());
        }
        proof {
            assert forall|n: Seq<char>| upto.contains(n) <==> so_far.contains(n) || n
                == all[i as int] by {
                if upto.contains(n) {
                    let k = choose|k: int| 0 <= k < upto.len() && upto[k] == n;
                    if k < i {
                        assert(so_far[k] == n);
                    }
                }
                if so_far.contains(n) {
                    let k = choose|k: int| 0 <= k < so_far.len() && so_far[k] == n;
                    assert(upto[k] == n);
                }
                assert(upto[i as int] == all[i as int]);
            }
            assert(texts(files@).to_set() =~= with_extension(upto, ext@));
        }
        i = i + 1;
    }
    assert(all.take(i as int) =~= all);
    files
}

// ---------------------------------------------------------------------------
// Laws
// ---------------------------------------------------------------------------

/// A name is its stem, a dot and its extension, which holds no dot; a name without a dot, or with
/// one in first place alone, is all stem.
pub proof fn a_name_is_stem_and_extension(name: Seq<char>)
    ensures
        extension_of(name) matches Some(ext) ==> {
            &&& name == stem_of(name) + seq!['.'] + ext
            &&& !ext.contains('.')
            &&& stem_of(name).len() > 0
        },
        extension_of(name) is None ==> stem_of(name) == name,
        name != ".."@ && (exists|i: int| 0 < i < name.len() && #[trigger] name[i] == '.')
            ==> extension_of(name) is Some,
{
    what_is_behind_the_last(name, '.');
    let t = after_last(name, '.');
    let dot = name.len() - t.len() - 1;
    if dot > 0 && name != ".."@ {
        assert(name.skip(dot + 1) =~= t);
        assert(name =~= name.take(dot) + seq!['.'] + t);
    }
    if exists|i: int| 0 < i < name.len() && #[trigger] name[i] == '.' {
        let i = choose|i: int| 0 < i < name.len() && #[trigger] name[i] == '.';
        if dot < i {
            assert(t[i - dot - 1] == name[i]);
            assert(t.contains('.'));
        }
    }
}

/// Something in a directory has the directory's path, one slash and its name.
pub proof fn a_child_stands_in_its_directory(dir: Seq<char>, name: Seq<char>)
    ensures
        dir.len() == 0 ==> child_of(dir, name) == name,
        dir.len() > 0 && dir.last() == '/' ==> child_of(dir, name) == dir + name,
        dir.len() > 0 && dir.last() != '/' ==> child_of(dir, name) == dir + seq!['/'] + name,
{
    if dir.len() == 0 {
        assert(dir + name =~= name);
    }
}

/// The names with an extension are those names that have it.
pub proof fn names_with_an_extension(names: Seq<Seq<char>>, ext: Seq<char>, name: Seq<char>)
    ensures
        with_extension(names, ext).contains(name) <==> names.contains(name) && extension_of(name)
            == Some(ext),
{
}

} // verus!
