//! What holds of overrides and of the models that are offered.
use crate::agent_runtime::capabilities::{capabilities, refused, RuntimeFieldCapability};
use crate::agent_runtime::discovery::{claude, codex, efforts, found, pi, Catalog, Choice};
use crate::agent_runtime::store::{key_of, read, stored_after, written_key, SettingWrite};
use crate::agent_runtime::{AgentRuntimeOverrides, Overrides};
use crate::domain::Agent;
use crate::error::Fault;
use crate::json::{document_in, Tree};
use crate::text::{blank, lines_of, same_letters, trimmed, words_of};
use vstd::prelude::*;

verus! {

/// A value that is set counts without the white space around it; a blank one is not set. Each field
/// is taken for itself.
pub proof fn a_blank_value_is_not_set(o: Overrides, s: Seq<char>)
    ensures
        o.model is None ==> o.normal().model is None,
        o.provider is None ==> o.normal().provider is None,
        o.effort is None ==> o.normal().effort is None,
        o.model == Some(s) ==> o.normal().model == (if blank(s) {
            None
        } else {
            Some(trimmed(s))
        }),
        o.provider == Some(s) ==> o.normal().provider == (if blank(s) {
            None
        } else {
            Some(trimmed(s))
        }),
        o.effort == Some(s) ==> o.normal().effort == (if blank(s) {
            None
        } else {
            Some(trimmed(s))
        }),
        Overrides::none().model is None,
        Overrides::none().provider is None,
        Overrides::none().effort is None,
{
}

/// Codex and `claude_code` take a model and an effort, Pi a provider too; no other agent takes
/// anything.
pub proof fn what_an_agent_takes(agent: Agent)
    ensures
        ({
            let c = capabilities(agent);
            let none = RuntimeFieldCapability::Unsupported;
            &&& c.model != none <==> agent == Agent::Codex || agent == Agent::ClaudeCode || agent
                == Agent::Pi
            &&& c.effort != none <==> agent == Agent::Codex || agent == Agent::ClaudeCode || agent
                == Agent::Pi
            &&& c.provider != none <==> agent == Agent::Pi
            &&& c.model == RuntimeFieldCapability::Discoverable <==> agent == Agent::Codex || agent
                == Agent::Pi
            &&& c.provider == RuntimeFieldCapability::Discoverable <==> agent == Agent::Pi
            &&& c.effort != none ==> c.effort == RuntimeFieldCapability::Suggested
        }),
        capabilities(Agent::ClaudeCode).model == RuntimeFieldCapability::Suggested,
{
}

/// What is said of a field that an agent does not take.
pub open spec fn not_taken(agent: Agent, field: Seq<char>) -> Fault {
    Fault::Other(agent.shown() + " 不支持覆盖 "@ + field + "，该配置不会被传给 Agent CLI"@)
}

/// Overrides are refused where one is set that the agent does not take, and only there; the first
/// such field is named.
pub proof fn when_overrides_are_refused(agent: Agent, o: Overrides)
    ensures
        ({
            let none = RuntimeFieldCapability::Unsupported;
            let c = capabilities(agent);
            let model = c.model == none && (o.model matches Some(s) && !blank(s));
            let provider = c.provider == none && (o.provider matches Some(s) && !blank(s));
            let effort = c.effort == none && (o.effort matches Some(s) && !blank(s));
            &&& refused(agent, o) is None <==> !model && !provider && !effort
            &&& model ==> refused(agent, o) == Some(not_taken(agent, "model"@))
            &&& !model && provider ==> refused(agent, o) == Some(not_taken(agent, "provider"@))
            &&& !model && !provider && effort ==> refused(agent, o) == Some(
                not_taken(agent, "effort"@),
            )
        }),
{
}

/// Overrides are kept under the agent's own name, and read as they were written; what cannot be
/// read is told with the reason.
pub proof fn what_is_read_was_stored(
    agent: Agent,
    o: AgentRuntimeOverrides,
    why: String,
    key: String,
)
    ensures
        key_of(agent) == "agent.runtime."@ + agent.name(),
        read(agent, None) == Ok::<Overrides, Fault>(Overrides::none()),
        read(agent, Some(Ok(o))) == Ok::<Overrides, Fault>(o.deep_view().normal()),
        read(agent, Some(Err(why))) == Err::<Overrides, Fault>(
            Fault::Other(
                agent.shown() + " 的运行时配置已损坏（"@ + key_of(agent) + "）："@ + why@
                    + "。请在 Settings → Agents 重新设置。"@,
            ),
        ),
        stored_after(SettingWrite::Delete { key }) is None,
        stored_after(SettingWrite::Save { key, overrides: o }) == Some(o.deep_view()),
        written_key(SettingWrite::Delete { key }) == key@,
        written_key(SettingWrite::Save { key, overrides: o }) == key@,
{
}

/// The levels of effort that each agent knows.
pub proof fn what_efforts_there_are()
    ensures
        efforts(Agent::Codex) == seq!["low"@, "medium"@, "high"@, "xhigh"@, "max"@, "ultra"@],
        efforts(Agent::ClaudeCode) == seq!["low"@, "medium"@, "high"@, "xhigh"@, "max"@],
        efforts(Agent::Pi) == seq![
            "off"@,
            "minimal"@,
            "low"@,
            "medium"@,
            "high"@,
            "xhigh"@,
            "max"@,
        ],
        forall|agent: Agent|
            agent != Agent::Codex && agent != Agent::ClaudeCode && agent != Agent::Pi ==> (
            #[trigger] efforts(agent)).len() == 0,
{
}

/// The models of a catalog are those that it holds, and it says where they come from.
pub proof fn a_catalog_tells_its_models(v: Seq<Choice>)
    ensures
        Catalog::Dynamic(v).choices() == v,
        Catalog::Suggested(v).choices() == v,
        Catalog::Unavailable.choices().len() == 0,
        Catalog::Dynamic(v).origin() == "dynamic"@,
        Catalog::Suggested(v).origin() == "suggested"@,
        Catalog::Unavailable.origin() == "unavailable"@,
{
}

/// Each agent is asked for its own models; an agent without a command line has none.
pub proof fn an_agent_offers_its_own_models(agent: Agent, probe: Result<String, String>)
    ensures
        found(Agent::Codex, probe) == codex::found(probe),
        found(Agent::Pi, probe) == pi::found(probe),
        found(Agent::ClaudeCode, probe) == (
            Catalog::Suggested(claude::aliases()),
            Seq::<Seq<char>>::empty(),
        ),
        agent != Agent::Codex && agent != Agent::ClaudeCode && agent != Agent::Pi ==> found(
            agent,
            probe,
        ) == (Catalog::Unavailable, Seq::<Seq<char>>::empty()),
        claude::aliases().len() == 3,
        claude::aliases()[0].id == "sonnet"@,
        claude::aliases()[1].id == "opus"@,
        claude::aliases()[2].id == "haiku"@,
        forall|i: int|
            0 <= i < 3 ==> (#[trigger] claude::aliases()[i]).provider is None
                && claude::aliases()[i].supported_efforts.len() == 0,
{
}

/// A line of Pi's table offers the model in its second column from the provider in its first; one
/// that can think takes every level, another none. The head of the table and short lines offer
/// nothing.
pub proof fn what_a_line_of_the_table_offers(line: Seq<char>)
    ensures
        ({
            let columns = words_of(line);
            &&& pi::listed(line) is Some <==> columns.len() >= 5 && columns[0] != "provider"@
            &&& pi::listed(line) matches Some(c) ==> {
                &&& c.id == columns[1]
                &&& c.provider == Some(columns[0])
                &&& c.display_name is None
                &&& same_letters(columns[4], "yes"@) ==> c.supported_efforts == efforts(Agent::Pi)
                &&& !same_letters(columns[4], "yes"@) ==> c.supported_efforts == seq!["off"@]
            }
        }),
{
}

/// Every line that offers a model does, in the order of the table.
pub proof fn one_more_line_of_the_table(lines: Seq<Seq<char>>, line: Seq<char>)
    ensures
        pi::all_listed(Seq::empty()) == Seq::<Choice>::empty(),
        pi::listed(line) is None ==> pi::all_listed(lines.push(line)) == pi::all_listed(lines),
        pi::listed(line) matches Some(c) ==> pi::all_listed(lines.push(line)) == pi::all_listed(
            lines,
        ).push(c),
{
    assert(lines.push(line).drop_last() =~= lines);
}

/// A table without models, or none at all, is told as what went wrong.
pub proof fn what_pi_offers(raw: String, why: String)
    ensures
        pi::found(Err(why)) == (Catalog::Unavailable, seq!["Pi 模型列表获取失败: "@ + why@]),
        pi::all_listed(lines_of(raw@)).len() == 0 ==> pi::found(Ok(raw)) == (
            Catalog::Unavailable,
            seq!["Pi 模型列表为空或格式无法识别"@],
        ),
        pi::all_listed(lines_of(raw@)).len() > 0 ==> pi::found(Ok(raw)) == (
            Catalog::Dynamic(pi::all_listed(lines_of(raw@))),
            Seq::<Seq<char>>::empty(),
        ),
{
}

/// An entry of Codex's catalog offers a model where it is meant to be listed and has a name; hidden
/// entries offer none.
pub proof fn what_an_entry_offers(entry: Tree, id: Seq<char>)
    ensures
        codex::offered(entry) is Some <==> entry.field("visibility"@) == Some(Tree::Text("list"@))
            && (entry.field("slug"@) matches Some(t) && t is Text),
        codex::offered(entry) matches Some(c) ==> {
            &&& entry.field("slug"@) == Some(Tree::Text(c.id))
            &&& c.provider is None
            &&& c.display_name == entry.text_at("display_name"@)
            &&& match entry.field("supported_reasoning_levels"@) {
                Some(Tree::List(levels)) => c.supported_efforts == codex::declared(levels),
                _ => c.supported_efforts.len() == 0,
            }
        },
{
}

/// Every entry that offers a model does, and every level that is declared counts, in order.
pub proof fn one_more_entry(entries: Seq<Tree>, entry: Tree, effort: Seq<char>)
    ensures
        codex::all_offered(Seq::empty()) == Seq::<Choice>::empty(),
        codex::offered(entry) is None ==> codex::all_offered(entries.push(entry))
            == codex::all_offered(entries),
        codex::offered(entry) matches Some(c) ==> codex::all_offered(entries.push(entry))
            == codex::all_offered(entries).push(c),
        codex::declared(Seq::empty()) == Seq::<Seq<char>>::empty(),
        entry.field("effort"@) == Some(Tree::Text(effort)) ==> codex::declared(entries.push(entry))
            == codex::declared(entries).push(effort),
        (entry.field("effort"@) matches Some(t) ==> !(t is Text)) ==> codex::declared(
            entries.push(entry),
        ) == codex::declared(entries),
{
    assert(entries.push(entry).drop_last() =~= entries);
}

/// A catalog that cannot be had, cannot be read or is empty is told as what went wrong.
pub proof fn what_codex_offers(raw: String, why: String)
    ensures
        codex::found(Err(why)) == (Catalog::Unavailable, seq!["Codex 模型目录获取失败: "@ + why@]),
        document_in(trimmed(raw@)) matches Err(e) ==> codex::found(Ok(raw)) == (
            Catalog::Unavailable,
            seq!["Codex 模型目录解析失败: "@ + e],
        ),
        document_in(trimmed(raw@)) matches Ok(root) ==> match root.field("models"@) {
            Some(Tree::List(entries)) => {
                let models = codex::all_offered(entries);
                &&& models.len() > 0 ==> codex::found(Ok(raw)) == (
                    Catalog::Dynamic(models),
                    Seq::<Seq<char>>::empty(),
                )
                &&& models.len() == 0 ==> codex::found(Ok(raw)) == (
                    Catalog::Unavailable,
                    seq!["Codex 返回了空的模型目录"@],
                )
            },
            _ => codex::found(Ok(raw)) == (
                Catalog::Unavailable,
                seq!["Codex 模型目录解析失败: "@ + "缺少 models 数组"@],
            ),
        },
{
}

} // verus!
