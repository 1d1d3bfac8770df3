//! What people override of an agent.
//!
//! The agent owns its defaults; only overrides are kept here. A field that is not set means the
//! agent's own default and becomes no argument at all.
pub mod capabilities;
pub mod discovery;
pub mod laws;
pub mod store;

use crate::adapters::ExecOptions;
use crate::domain::Agent;
use crate::error::AppError;
use crate::text::{blank, trim, trimmed};
use vstd::prelude::*;

pub use capabilities::{
    capabilities_of, validate_runtime_overrides, AgentRuntimeCapabilities, RuntimeFieldCapability,
};
pub use discovery::{
    discover_runtime_options, AgentRuntimeDiscovery, ModelCatalog, ModelOption,
};
pub use store::{get_runtime_overrides, set_runtime_overrides};

verus! {

/// What people override of one agent.
pub struct AgentRuntimeOverrides {
    pub model: Option<String>,
    pub provider: Option<String>,
    pub effort: Option<String>,
}

/// What people override of one agent, as a mathematical value.
pub struct Overrides {
    pub model: Option<Seq<char>>,
    pub provider: Option<Seq<char>>,
    pub effort: Option<Seq<char>>,
}

impl DeepView for AgentRuntimeOverrides {
    type V = Overrides;

    open spec fn deep_view(&self) -> Overrides {
        Overrides {
            model: self.model.deep_view(),
            provider: self.provider.deep_view(),
            effort: self.effort.deep_view(),
        }
    }
}

/// A value without white space at its ends; none where nothing is left.
pub open spec fn cleaned(v: Option<Seq<char>>) -> Option<Seq<char>> {
    match v {
        Some(s) => if blank(s) {
            None
        } else {
            Some(trimmed(s))
        },
        None => None,
    }
}

impl Overrides {
    /// Nothing is overridden.
    pub open spec fn none() -> Overrides {
        Overrides { model: None, provider: None, effort: None }
    }

    /// The overrides without blank values.
    pub open spec fn normal(self) -> Overrides {
        Overrides {
            model: cleaned(self.model),
            provider: cleaned(self.provider),
            effort: cleaned(self.effort),
        }
    }
}

fn clean(v: &Option<String>) -> (r: Option<String>)
    ensures
        r.deep_view() == cleaned(v.deep_view()),
{
    match v {
        Some(s) => {
            let t = trim(s.as_str());
            if t.as_str().is_empty() {
                None
            } else {
                Some(t)
            }
        },
        None => None,
    }
}

impl Default for AgentRuntimeOverrides {
    fn default() -> (r: AgentRuntimeOverrides)
        ensures
            r.deep_view() == Overrides::none(),
    {
        AgentRuntimeOverrides { model: None, provider: None, effort: None }
    }
}

impl AgentRuntimeOverrides {
    /// The overrides without blank values: a blank never means anything but the agent's default.
    pub fn normalized(&self) -> (r: AgentRuntimeOverrides)
        ensures
            r.deep_view() == self.deep_view().normal(),
    {
        AgentRuntimeOverrides {
            model: clean(&self.model),
            provider: clean(&self.provider),
            effort: clean(&self.effort),
        }
    }

    /// Whether nothing is overridden.
    pub fn is_default(&self) -> (r: bool)
        ensures
            r == (self.deep_view().normal() == Overrides::none()),
    {
        let o = self.normalized();
        o.model.is_none() && o.provider.is_none() && o.effort.is_none()
    }

    /// The overrides as a command line takes them.
    pub fn exec_options(&self) -> (r: ExecOptions)
        ensures
            r.model.deep_view() == self.deep_view().normal().model,
            r.provider.deep_view() == self.deep_view().normal().provider,
            r.effort.deep_view() == self.deep_view().normal().effort,
    {
        let o = self.normalized();
        ExecOptions { model: o.model, provider: o.provider, effort: o.effort }
    }
}

/// The options of an agent, from what is stored of its overrides. What is not overridden stays
/// unset: no default is looked up.
pub fn runtime_exec_options(
    agent: Agent,
    stored: &Option<Result<AgentRuntimeOverrides, String>>,
) -> (r: Result<ExecOptions, AppError>)
    ensures
        match store::read(agent, *stored) {
            Err(f) => r matches Err(e) && e.deep_view() == f,
            Ok(o) => match capabilities::refused(agent, o) {
                Some(f) => r matches Err(e) && e.deep_view() == f,
                None => r matches Ok(opts) && opts.model.deep_view() == o.normal().model
                    && opts.provider.deep_view() == o.normal().provider && opts.effort.deep_view()
                    == o.normal().effort,
            },
        },
{
    match get_runtime_overrides(agent, stored) {
        Err(e) => Err(e),
        Ok(overrides) => match validate_runtime_overrides(agent, &overrides) {
            Err(e) => Err(e),
            Ok(()) => Ok(overrides.exec_options()),
        },
    }
}

// ---------------------------------------------------------------------------
// Laws
// ---------------------------------------------------------------------------

/// A trimmed text is not trimmed again.
proof fn trimmed_is_trimmed(s: Seq<char>)
    ensures
        trimmed(trimmed(s)) == trimmed(s),
        blank(s) == (trimmed(s).len() == 0),
{
    crate::text::trimming_settles(s);
}

/// Dropping blank values a second time changes nothing.
pub proof fn normalizing_settles(o: Overrides)
    ensures
        o.normal().normal() == o.normal(),
{
    if o.model is Some {
        trimmed_is_trimmed(o.model->Some_0);
        trimmed_is_trimmed(trimmed(o.model->Some_0));
    }
    if o.provider is Some {
        trimmed_is_trimmed(o.provider->Some_0);
        trimmed_is_trimmed(trimmed(o.provider->Some_0));
    }
    if o.effort is Some {
        trimmed_is_trimmed(o.effort->Some_0);
        trimmed_is_trimmed(trimmed(o.effort->Some_0));
    }
}

} // verus!
