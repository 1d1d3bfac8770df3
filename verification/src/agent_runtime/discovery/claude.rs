//! `claude_code`: its documented aliases are suggested; which models the account may use is not
//! asked.
use crate::agent_runtime::discovery::{Catalog, Choice, ModelCatalog, ModelOption};
use crate::text::texts;
use vstd::prelude::*;

verus! {

/// The effort levels.
pub open spec fn levels() -> Seq<Seq<char>> {
    seq!["low"@, "medium"@, "high"@, "xhigh"@, "max"@]
}

/// The effort levels.
pub fn effort_levels() -> (r: Vec<String>)
    ensures
        texts(r@) == levels(),
{
    let mut out: Vec<String> = Vec::new();
    out.push("low".to_owned());
    out.push("medium".to_owned());
    out.push("high".to_owned());
    out.push("xhigh".to_owned());
    out.push("max".to_owned());
    assert(texts(out@) =~= levels());
    out
}

/// An alias that is suggested.
pub open spec fn suggestion(alias: Seq<char>, label: Seq<char>) -> Choice {
    Choice {
        id: alias,
        display_name: Some(label),
        provider: None,
        supported_efforts: Seq::empty(),
    }
}

/// The aliases that are suggested.
pub open spec fn aliases() -> Seq<Choice> {
    seq![
        suggestion("sonnet"@, "Sonnet"@),
        suggestion("opus"@, "Opus"@),
        suggestion("haiku"@, "Haiku"@),
    ]
}

fn suggest(alias: &str, label: &str) -> (r: ModelOption)
    ensures
        r.deep_view() == suggestion(alias@, label@),
{
    let r = ModelOption {
        id: alias.to_owned(),
        display_name: Some(label.to_owned()),
        provider: None,
        supported_efforts: Vec::new(),
    };
    assert(texts(r.supported_efforts@) =~= Seq::<Seq<char>>::empty());
    r
}

/// The aliases that are suggested.
pub fn discover() -> (r: (ModelCatalog, Vec<String>))
    ensures
        r.0.deep_view() == Catalog::Suggested(aliases()),
        texts(r.1@) == Seq::<Seq<char>>::empty(),
{
    let mut models: Vec<ModelOption> = Vec::new();
    models.push(suggest("sonnet", "Sonnet"));
    models.push(suggest("opus", "Opus"));
    models.push(suggest("haiku", "Haiku"));
    assert(models.deep_view() =~= aliases());
    let none: Vec<String> = Vec::new();
    assert(texts(none@) =~= Seq::<Seq<char>>::empty());
    (ModelCatalog::Suggested(models), none)
}

} // verus!
