//! Codex: `codex debug models` prints its catalog as JSON. Hidden entries are not offered.
use crate::agent_runtime::discovery::{warn, Catalog, Choice, ModelCatalog, ModelOption};
use crate::json::{document_in, parse_document, trees, Json, Tree};
use crate::text::{texts, trim, trimmed};
use vstd::prelude::*;

verus! {

/// The effort levels.
pub open spec fn levels() -> Seq<Seq<char>> {
    seq!["low"@, "medium"@, "high"@, "xhigh"@, "max"@, "ultra"@]
}

/// The effort levels.
pub fn effort_levels() -> (r: Vec<String>)
    ensures
        texts(r@) == levels(),
{
    let mut out: Vec<String> = Vec::new();
    out.push("low".to_owned());
    out.push("medium".to_owned());
    out.push("high".to_owned());
    out.push("xhigh".to_owned());
    out.push("max".to_owned());
    out.push("ultra".to_owned());
    assert(texts(out@) =~= levels());
    out
}

/// The levels that a model declares.
pub open spec fn declared(levels: Seq<Tree>) -> Seq<Seq<char>>
    decreases levels.len(),
{
    if levels.len() == 0 {
        Seq::empty()
    } else {
        let before = declared(levels.drop_last());
        match levels.last().text_at("effort"@) {
            Some(e) => before.push(e),
            None => before,
        }
    }
}

/// The model that an entry offers.
pub open spec fn offered(entry: Tree) -> Option<Choice> {
    if entry.text_at("visibility"@) != Some("list"@) {
        None
    } else {
        match entry.text_at("slug"@) {
            None => None,
            Some(id) => Some(
                Choice {
                    id,
                    display_name: entry.text_at("display_name"@),
                    provider: None,
                    supported_efforts: match entry.items_at("supported_reasoning_levels"@) {
                        Some(levels) => declared(levels),
                        None => Seq::empty(),
                    },
                },
            ),
        }
    }
}

/// The models that entries offer, in order.
pub open spec fn all_offered(entries: Seq<Tree>) -> Seq<Choice>
    decreases entries.len(),
{
    if entries.len() == 0 {
        Seq::empty()
    } else {
        let before = all_offered(entries.drop_last());
        match offered(entries.last()) {
            Some(c) => before.push(c),
            None => before,
        }
    }
}

/// The models that a document offers, or what is wrong with it.
pub open spec fn models_in(root: Tree) -> Result<Seq<Choice>, Seq<char>> {
    match root.items_at("models"@) {
        None => Err("缺少 models 数组"@),
        Some(entries) => Ok(all_offered(entries)),
    }
}

/// The models that a catalog offers, or what is wrong with it.
pub open spec fn catalog(raw: Seq<char>) -> Result<Seq<Choice>, Seq<char>> {
    match document_in(trimmed(raw)) {
        Err(e) => Err(e),
        Ok(root) => models_in(root),
    }
}

/// The models and what went wrong.
pub open spec fn found(probe: Result<String, String>) -> (Catalog, Seq<Seq<char>>) {
    match probe {
        Err(e) => (Catalog::Unavailable, seq!["Codex 模型目录获取失败: "@ + e@]),
        Ok(raw) => match catalog(raw@) {
            Err(e) => (Catalog::Unavailable, seq!["Codex 模型目录解析失败: "@ + e]),
            Ok(models) => if models.len() > 0 {
                (Catalog::Dynamic(models), Seq::empty())
            } else {
                (Catalog::Unavailable, seq!["Codex 返回了空的模型目录"@])
            },
        },
    }
}

fn efforts_of(levels: &Vec<Json>) -> (r: Vec<String>)
    ensures
        texts(r@) == declared(trees(levels@)),
{
    let ghost all = trees(levels@);
    let mut out: Vec<String> = Vec::new();
    let mut i: usize = 0;
    assert(all.take(0) =~= Seq::<Tree>::empty());
    assert(texts(out@) =~= Seq::<Seq<char>>::empty());
    while i < levels.len()
        invariant
            i <= levels@.len(),
            all == trees(levels@),
            texts(out@) == declared(all.take(i as int)),
        decreases levels@.len() - i,
    {
        assert(all.take(i + 1).drop_last() =~= all.take(i as int));
        assert(all.take(i + 1).last() == levels@[i as int].tree());
        match levels[i].string_at("effort") {
            Some(e) => {
                let ghost before = texts(out@);
                out.push(e);
                assert(texts(out@) =~= before.push(e@));
            },
            None => {},
        }
        i = i + 1;
    }
    assert(all.take(i as int) =~= all);
    out
}

fn option_of(entry: &Json) -> (r: Option<ModelOption>)
    ensures
        r.deep_view() == offered(entry.tree()),
{
    if !entry.text_is("visibility", "list") {
        return None;
    }
    match entry.string_at("slug") {
        None => None,
        Some(id) => {
            let supported_efforts: Vec<String> = match entry.items_at(
                "supported_reasoning_levels",
            ) {
                Some(levels) => efforts_of(levels),
                None => Vec::new(),
            };
            assert(texts(supported_efforts@) =~= offered(
                entry.tree(),
            )->Some_0.supported_efforts);
            Some(
                ModelOption {
                    id,
                    display_name: entry.string_at("display_name"),
                    provider: None,
                    supported_efforts,
                },
            )
        },
    }
}

/// The models that a catalog offers, or what is wrong with it.
pub fn parse(raw: &str) -> (r: Result<Vec<ModelOption>, String>)
    ensures
        match catalog(raw@) {
            Ok(models) => r matches Ok(v) && v.deep_view() == models,
            Err(e) => r matches Err(s) && s@ == e,
        },
{
    match parse_document(trim(raw).as_str()) {
        Ok(root) => models_of(&root),
        Err(e) => Err(e),
    }
}

/// The models that a document offers, or what is wrong with it.
pub fn models_of(root: &Json) -> (r: Result<Vec<ModelOption>, String>)
    ensures
        match models_in(root.tree()) {
            Ok(models) => r matches Ok(v) && v.deep_view() == models,
            Err(e) => r matches Err(s) && s@ == e,
        },
{
    let entries = match root.items_at("models") {
        Some(entries) => entries,
        None => {
            return Err("缺少 models 数组".to_owned());
        },
    };
    let ghost all = trees(entries@);
    let mut out: Vec<ModelOption> = Vec::new();
    let mut i: usize = 0;
    assert(all.take(0) =~= Seq::<Tree>::empty());
    assert(out.deep_view() =~= Seq::<Choice>::empty());
    while i < entries.len()
        invariant
            i <= entries@.len(),
            all == trees(entries@),
            out.deep_view() == all_offered(all.take(i as int)),
        decreases entries@.len() - i,
    {
        assert(all.take(i + 1).drop_last() =~= all.take(i as int));
        assert(all.take(i + 1).last() == entries@[i as int].tree());
        match option_of(&entries[i]) {
            Some(o) => {
                let ghost before = out.deep_view();
                out.push(o);
                assert(out.deep_view() =~= before.push(o.deep_view()));
            },
            None => {},
        }
        i = i + 1;
    }
    assert(all.take(i as int) =~= all);
    Ok(out)
}

/// The models and what went wrong. `probe` is what the command line printed, or why it could not
/// be asked.
pub fn discover(probe: &Result<String, String>) -> (r: (ModelCatalog, Vec<String>))
    ensures
        r.0.deep_view() == found(*probe).0,
        texts(r.1@) == found(*probe).1,
{
    match probe {
        Err(e) => {
            let mut text: String = "Codex 模型目录获取失败: ".to_owned();
            text.append(e.as_str());
            (ModelCatalog::Unavailable, warn(text))
        },
        Ok(raw) => match parse(raw.as_str()) {
            Err(e) => {
                let mut text: String = "Codex 模型目录解析失败: ".to_owned();
                text.append(e.as_str());
                (ModelCatalog::Unavailable, warn(text))
            },
            Ok(models) => {
                assert(models.deep_view().len() == models@.len());
                if models.len() > 0 {
                    let none: Vec<String> = Vec::new();
                    assert(texts(none@) =~= Seq::<Seq<char>>::empty());
                    (ModelCatalog::Dynamic(models), none)
                } else {
                    (ModelCatalog::Unavailable, warn("Codex 返回了空的模型目录".to_owned()))
                }
            },
        },
    }
}

} // verus!
