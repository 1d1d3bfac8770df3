//! Pi: `pi --list-models` prints a table with the columns provider, model, context, max-out,
//! thinking and images. Pi is the one agent with providers.
use crate::agent_runtime::discovery::{warn, Catalog, Choice, ModelCatalog, ModelOption};
use crate::text::{lines, lines_of, same, same_ignoring_case, same_letters, texts, words, words_of};
use vstd::prelude::*;

verus! {

/// The effort levels.
pub open spec fn levels() -> Seq<Seq<char>> {
    seq!["off"@, "minimal"@, "low"@, "medium"@, "high"@, "xhigh"@, "max"@]
}

/// The effort levels.
pub fn effort_levels() -> (r: Vec<String>)
    ensures
        texts(r@) == levels(),
{
    let mut out: Vec<String> = Vec::new();
    out.push("off".to_owned());
    out.push("minimal".to_owned());
    out.push("low".to_owned());
    out.push("medium".to_owned());
    out.push("high".to_owned());
    out.push("xhigh".to_owned());
    out.push("max".to_owned());
    assert(texts(out@) =~= levels());
    out
}

/// The model that a line of the table names. The header, blank lines and short lines name none.
pub open spec fn listed(line: Seq<char>) -> Option<Choice> {
    let columns = words_of(line);
    if columns.len() < 5 || columns[0] == "provider"@ {
        None
    } else {
        Some(
            Choice {
                id: columns[1],
                display_name: None,
                provider: Some(columns[0]),
                supported_efforts: if same_letters(columns[4], "yes"@) {
                    levels()
                } else {
                    seq!["off"@]
                },
            },
        )
    }
}

/// The models that lines of the table name, in order.
pub open spec fn all_listed(lines: Seq<Seq<char>>) -> Seq<Choice>
    decreases lines.len(),
{
    if lines.len() == 0 {
        Seq::empty()
    } else {
        let before = all_listed(lines.drop_last());
        match listed(lines.last()) {
            Some(c) => before.push(c),
            None => before,
        }
    }
}

/// The models and what went wrong.
pub open spec fn found(probe: Result<String, String>) -> (Catalog, Seq<Seq<char>>) {
    match probe {
        Err(e) => (Catalog::Unavailable, seq!["Pi 模型列表获取失败: "@ + e@]),
        Ok(raw) => {
            let models = all_listed(lines_of(raw@));
            if models.len() > 0 {
                (Catalog::Dynamic(models), Seq::empty())
            } else {
                (Catalog::Unavailable, seq!["Pi 模型列表为空或格式无法识别"@])
            }
        },
    }
}

fn option_of(line: &str) -> (r: Option<ModelOption>)
    ensures
        r.deep_view() == listed(line@),
{
    let columns = words(line);
    let ghost all = words_of(line@);
    assert(texts(columns@).len() == columns@.len());
    if columns.len() < 5 || same(columns[0].as_str(), "provider") {
        return None;
    }
    assert(all[0] == columns@[0]@ && all[1] == columns@[1]@ && all[4] == columns@[4]@);
    let supported_efforts: Vec<String> = if same_ignoring_case(columns[4].as_str(), "yes") {
        effort_levels()
    } else {
        let mut off: Vec<String> = Vec::new();
        off.push("off".to_owned());
        assert(texts(off@) =~= seq!["off"@]);
        off
    };
    Some(
        ModelOption {
            id: columns[1].clone(),
            display_name: None,
            provider: Some(columns[0].clone()),
            supported_efforts,
        },
    )
}

/// The models that the table names, in order.
pub fn parse(raw: &str) -> (r: Vec<ModelOption>)
    ensures
        r.deep_view() == all_listed(lines_of(raw@)),
{
    let rows = lines(raw);
    let ghost all = texts(rows@);
    let mut out: Vec<ModelOption> = Vec::new();
    let mut i: usize = 0;
    assert(all.take(0) =~= Seq::<Seq<char>>::empty());
    assert(out.deep_view() =~= Seq::<Choice>::empty());
    while i < rows.len()
        invariant
            i <= rows@.len(),
            all == texts(rows@),
            out.deep_view() == all_listed(all.take(i as int)),
        decreases rows@.len() - i,
    {
        assert(all.take(i + 1).drop_last() =~= all.take(i as int));
        assert(all.take(i + 1).last() == rows@[i as int]@);
        match option_of(rows[i].as_str()) {
            Some(o) => {
                let ghost before = out.deep_view();
                out.push(o);
                assert(out.deep_view() =~= before.push(o.deep_view()));
            },
            None => {},
        }
        i = i + 1;
    }
    assert(all.take(i as int) =~= all);
    out
}

/// The models and what went wrong. `probe` is what the command line printed, or why it could not
/// be asked.
pub fn discover(probe: &Result<String, String>) -> (r: (ModelCatalog, Vec<String>))
    ensures
        r.0.deep_view() == found(*probe).0,
        texts(r.1@) == found(*probe).1,
{
    match probe {
        Err(e) => {
            let mut text: String = "Pi 模型列表获取失败: ".to_owned();
            text.append(e.as_str());
            (ModelCatalog::Unavailable, warn(text))
        },
        Ok(raw) => {
            let models = parse(raw.as_str());
            assert(models.deep_view().len() == models@.len());
            if models.len() > 0 {
                let none: Vec<String> = Vec::new();
                assert(texts(none@) =~= Seq::<Seq<char>>::empty());
                (ModelCatalog::Dynamic(models), none)
            } else {
                (
                    ModelCatalog::Unavailable,
                    warn("Pi 模型列表为空或格式无法识别".to_owned()),
                )
            }
        },
    }
}

} // verus!
