//! Which models an agent offers: advice for people, never a condition of a launch. A failure
//! becomes a warning.
pub mod claude;
pub mod codex;
pub mod pi;

use crate::agent_runtime::capabilities::capabilities;
use crate::agent_runtime::{capabilities_of, AgentRuntimeCapabilities};
use crate::domain::{copy_text, copy_texts, Agent};
use crate::text::texts;
use vstd::prelude::*;

verus! {

/// How long an agent is waited for, in seconds.
pub const DISCOVERY_TIMEOUT_SECS: u64 = 20;

/// A model that can be chosen.
pub struct ModelOption {
    pub id: String,
    pub display_name: Option<String>,
    pub provider: Option<String>,
    pub supported_efforts: Vec<String>,
}

/// A model that can be chosen, as a mathematical value.
pub struct Choice {
    pub id: Seq<char>,
    pub display_name: Option<Seq<char>>,
    pub provider: Option<Seq<char>>,
    pub supported_efforts: Seq<Seq<char>>,
}

impl DeepView for ModelOption {
    type V = Choice;

    open spec fn deep_view(&self) -> Choice {
        Choice {
            id: self.id@,
            display_name: self.display_name.deep_view(),
            provider: self.provider.deep_view(),
            supported_efforts: texts(self.supported_efforts@),
        }
    }
}

/// The models of an agent, and where they come from.
pub enum ModelCatalog {
    /// The agent listed them.
    Dynamic(Vec<ModelOption>),
    /// They are suggestions, not all that the account may use.
    Suggested(Vec<ModelOption>),
    Unavailable,
}

/// The models of an agent, as a mathematical value.
pub enum Catalog {
    Dynamic(Seq<Choice>),
    Suggested(Seq<Choice>),
    Unavailable,
}

impl DeepView for ModelCatalog {
    type V = Catalog;

    open spec fn deep_view(&self) -> Catalog {
        match *self {
            ModelCatalog::Dynamic(v) => Catalog::Dynamic(v.deep_view()),
            ModelCatalog::Suggested(v) => Catalog::Suggested(v.deep_view()),
            ModelCatalog::Unavailable => Catalog::Unavailable,
        }
    }
}

impl Catalog {
    /// The models.
    pub open spec fn choices(self) -> Seq<Choice> {
        match self {
            Catalog::Dynamic(v) => v,
            Catalog::Suggested(v) => v,
            Catalog::Unavailable => Seq::empty(),
        }
    }

    /// Where the models come from.
    pub open spec fn origin(self) -> Seq<char> {
        match self {
            Catalog::Dynamic(_) => "dynamic"@,
            Catalog::Suggested(_) => "suggested"@,
            Catalog::Unavailable => "unavailable"@,
        }
    }
}

fn copy_options(v: &Vec<ModelOption>) -> (r: Vec<ModelOption>)
    ensures
        r.deep_view() == v.deep_view(),
{
    let ghost all = v.deep_view();
    let mut out: Vec<ModelOption> = Vec::new();
    let mut i: usize = 0;
    assert(out.deep_view() =~= all.take(0));
    while i < v.len()
        invariant
            i <= v@.len(),
            all == v.deep_view(),
            out.deep_view() == all.take(i as int),
        decreases v@.len() - i,
    {
        let ghost before = out.deep_view();
        let o = ModelOption {
            id: v[i].id.clone(),
            display_name: copy_text(&v[i].display_name),
            provider: copy_text(&v[i].provider),
            supported_efforts: copy_texts(&v[i].supported_efforts),
        };
        out.push(o);
        assert(out.deep_view() =~= before.push(all[i as int]));
        i = i + 1;
        assert(all.take(i as int) =~= all.take(i - 1).push(all[i - 1]));
    }
    assert(all.take(i as int) =~= all);
    out
}

impl ModelCatalog {
    /// The models.
    pub fn options(&self) -> (r: Vec<ModelOption>)
        ensures
            r.deep_view() == self.deep_view().choices(),
    {
        match self {
            ModelCatalog::Dynamic(v) => copy_options(v),
            ModelCatalog::Suggested(v) => copy_options(v),
            ModelCatalog::Unavailable => {
                let none: Vec<ModelOption> = Vec::new();
                assert(none.deep_view() =~= Seq::<Choice>::empty());
                none
            },
        }
    }

    /// Where the models come from.
    pub fn source(&self) -> (r: &'static str)
        ensures
            r@ == self.deep_view().origin(),
    {
        match self {
            ModelCatalog::Dynamic(_) => "dynamic",
            ModelCatalog::Suggested(_) => "suggested",
            ModelCatalog::Unavailable => "unavailable",
        }
    }
}

/// What can be set for an agent.
pub struct AgentRuntimeDiscovery {
    pub capabilities: AgentRuntimeCapabilities,
    pub models: Vec<ModelOption>,
    pub model_source: &'static str,
    pub effort_levels: Vec<String>,
    pub warnings: Vec<String>,
}

/// The effort levels of an agent.
pub open spec fn efforts(agent: Agent) -> Seq<Seq<char>> {
    match agent {
        Agent::Codex => codex::levels(),
        Agent::ClaudeCode => claude::levels(),
        Agent::Pi => pi::levels(),
        _ => Seq::empty(),
    }
}

/// The models of an agent and what went wrong. `probe` is what the agent's command line printed,
/// or why it could not be asked.
pub open spec fn found(agent: Agent, probe: Result<String, String>) -> (Catalog, Seq<Seq<char>>) {
    match agent {
        Agent::Codex => codex::found(probe),
        Agent::ClaudeCode => (Catalog::Suggested(claude::aliases()), Seq::empty()),
        Agent::Pi => pi::found(probe),
        _ => (Catalog::Unavailable, Seq::empty()),
    }
}

/// The effort levels of an agent.
pub fn effort_levels_for(agent: Agent) -> (r: Vec<String>)
    ensures
        texts(r@) == efforts(agent),
{
    match agent {
        Agent::Codex => codex::effort_levels(),
        Agent::ClaudeCode => claude::effort_levels(),
        Agent::Pi => pi::effort_levels(),
        _ => {
            let none: Vec<String> = Vec::new();
            assert(texts(none@) =~= Seq::<Seq<char>>::empty());
            none
        },
    }
}

/// What can be set for an agent. `probe` is what the agent's command line printed, or why it could
/// not be asked.
pub fn discover_runtime_options(agent: Agent, probe: &Result<String, String>) -> (r:
    AgentRuntimeDiscovery)
    ensures
        r.capabilities == capabilities(agent),
        r.models.deep_view() == found(agent, *probe).0.choices(),
        r.model_source@ == found(agent, *probe).0.origin(),
        texts(r.effort_levels@) == efforts(agent),
        texts(r.warnings@) == found(agent, *probe).1,
{
    let (models, warnings): (ModelCatalog, Vec<String>) = match agent {
        Agent::Codex => codex::discover(probe),
        Agent::ClaudeCode => claude::discover(),
        Agent::Pi => pi::discover(probe),
        _ => {
            let none: Vec<String> = Vec::new();
            assert(texts(none@) =~= Seq::<Seq<char>>::empty());
            (ModelCatalog::Unavailable, none)
        },
    };
    AgentRuntimeDiscovery {
        capabilities: capabilities_of(agent),
        models: models.options(),
        model_source: models.source(),
        effort_levels: effort_levels_for(agent),
        warnings,
    }
}

/// What an agent's command line is asked for its models; nothing where it is not asked.
pub fn probe_arguments(agent: Agent) -> (r: Vec<String>)
    ensures
        texts(r@) == (match agent {
            Agent::Codex => seq!["debug"@, "models"@],
            Agent::Pi => seq!["--list-models"@],
            _ => Seq::empty(),
        }),
{
    let mut args: Vec<String> = Vec::new();
    match agent {
        Agent::Codex => {
            args.push("debug".to_owned());
            args.push("models".to_owned());
            assert(texts(args@) =~= seq!["debug"@, "models"@]);
        },
        Agent::Pi => {
            args.push("--list-models".to_owned());
            assert(texts(args@) =~= seq!["--list-models"@]);
        },
        _ => {
            assert(texts(args@) =~= Seq::<Seq<char>>::empty());
        },
    }
    args
}

pub(crate) fn warn(text: String) -> (r: Vec<String>)
    ensures
        texts(r@) == seq![text@],
{
    let mut out: Vec<String> = Vec::new();
    out.push(text);
    assert(texts(out@) =~= seq![text@]);
    out
}

// ---------------------------------------------------------------------------
// Laws
// ---------------------------------------------------------------------------

/// A catalog that is not available is always empty.
pub proof fn an_unavailable_catalog_is_empty(c: Catalog)
    ensures
        c is Unavailable ==> c.choices().len() == 0,
{
}

} // verus!
