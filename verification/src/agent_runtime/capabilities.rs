//! Which fields of an agent can be overridden.
use crate::agent_runtime::{AgentRuntimeOverrides, Overrides};
use crate::domain::Agent;
use crate::error::{AppError, Fault};
use vstd::prelude::*;

verus! {

/// How a field can be overridden.
#[derive(Clone, Copy, Debug, PartialEq, Eq, Structural)]
pub enum RuntimeFieldCapability {
    /// Not at all.
    Unsupported,
    /// With any value.
    FreeForm,
    /// With any value, and some are suggested.
    Suggested,
    /// With a value that the agent lists.
    Discoverable,
}

impl RuntimeFieldCapability {
    /// Whether the field can be overridden.
    pub fn supports_override(self) -> (r: bool)
        ensures
            r == (self != RuntimeFieldCapability::Unsupported),
    {
        !matches!(self, RuntimeFieldCapability::Unsupported)
    }
}

/// How the fields of an agent can be overridden.
#[derive(Clone, Copy, Debug, PartialEq, Eq, Structural)]
pub struct AgentRuntimeCapabilities {
    pub model: RuntimeFieldCapability,
    pub provider: RuntimeFieldCapability,
    pub effort: RuntimeFieldCapability,
}

/// How the fields of an agent can be overridden. An agent without a command line takes nothing.
pub open spec fn capabilities(agent: Agent) -> AgentRuntimeCapabilities {
    match agent {
        Agent::Codex => AgentRuntimeCapabilities {
            model: RuntimeFieldCapability::Discoverable,
            provider: RuntimeFieldCapability::Unsupported,
            effort: RuntimeFieldCapability::Suggested,
        },
        Agent::ClaudeCode => AgentRuntimeCapabilities {
            model: RuntimeFieldCapability::Suggested,
            provider: RuntimeFieldCapability::Unsupported,
            effort: RuntimeFieldCapability::Suggested,
        },
        Agent::Pi => AgentRuntimeCapabilities {
            model: RuntimeFieldCapability::Discoverable,
            provider: RuntimeFieldCapability::Discoverable,
            effort: RuntimeFieldCapability::Suggested,
        },
        _ => AgentRuntimeCapabilities {
            model: RuntimeFieldCapability::Unsupported,
            provider: RuntimeFieldCapability::Unsupported,
            effort: RuntimeFieldCapability::Unsupported,
        },
    }
}

/// How the fields of an agent can be overridden.
pub fn capabilities_of(agent: Agent) -> (r: AgentRuntimeCapabilities)
    ensures
        r == capabilities(agent),
{
    match agent {
        Agent::Codex => AgentRuntimeCapabilities {
            model: RuntimeFieldCapability::Discoverable,
            provider: RuntimeFieldCapability::Unsupported,
            effort: RuntimeFieldCapability::Suggested,
        },
        Agent::ClaudeCode => AgentRuntimeCapabilities {
            model: RuntimeFieldCapability::Suggested,
            provider: RuntimeFieldCapability::Unsupported,
            effort: RuntimeFieldCapability::Suggested,
        },
        Agent::Pi => AgentRuntimeCapabilities {
            model: RuntimeFieldCapability::Discoverable,
            provider: RuntimeFieldCapability::Discoverable,
            effort: RuntimeFieldCapability::Suggested,
        },
        _ => AgentRuntimeCapabilities {
            model: RuntimeFieldCapability::Unsupported,
            provider: RuntimeFieldCapability::Unsupported,
            effort: RuntimeFieldCapability::Unsupported,
        },
    }
}

/// What is said of a field that cannot be overridden.
pub open spec fn refusal(agent: Agent, field: Seq<char>) -> Fault {
    Fault::Other(
        agent.shown() + " 不支持覆盖 "@ + field + "，该配置不会被传给 Agent CLI"@,
    )
}

/// Whether a value is set where none can be.
pub open spec fn misplaced(value: Option<Seq<char>>, capability: RuntimeFieldCapability) -> bool {
    value is Some && capability == RuntimeFieldCapability::Unsupported
}

/// Why overrides are refused: the first field that is set and that the agent does not take.
pub open spec fn refused(agent: Agent, overrides: Overrides) -> Option<Fault> {
    let o = overrides.normal();
    let caps = capabilities(agent);
    if misplaced(o.model, caps.model) {
        Some(refusal(agent, "model"@))
    } else if misplaced(o.provider, caps.provider) {
        Some(refusal(agent, "provider"@))
    } else if misplaced(o.effort, caps.effort) {
        Some(refusal(agent, "effort"@))
    } else {
        None
    }
}

fn refuse(agent: Agent, field: &str) -> (e: AppError)
    ensures
        e.deep_view() == refusal(agent, field@),
{
    let mut message: String = agent.display_name();
    message.append(" 不支持覆盖 ");
    message.append(field);
    message.append("，该配置不会被传给 Agent CLI");
    AppError::Other(message)
}

/// Refuses overrides that the agent would never see.
pub fn validate_runtime_overrides(agent: Agent, overrides: &AgentRuntimeOverrides) -> (r: Result<
    (),
    AppError,
>)
    ensures
        match refused(agent, overrides.deep_view()) {
            Some(f) => r matches Err(e) && e.deep_view() == f,
            None => r is Ok,
        },
{
    let caps = capabilities_of(agent);
    let o = overrides.normalized();
    if o.model.is_some() && !caps.model.supports_override() {
        return Err(refuse(agent, "model"));
    }
    if o.provider.is_some() && !caps.provider.supports_override() {
        return Err(refuse(agent, "provider"));
    }
    if o.effort.is_some() && !caps.effort.supports_override() {
        return Err(refuse(agent, "effort"));
    }
    Ok(())
}

/// Overrides that set nothing are never refused.
pub proof fn defaults_are_always_taken(agent: Agent, overrides: Overrides)
    requires
        overrides.normal() == Overrides::none(),
    ensures
        refused(agent, overrides) is None,
{
}

} // verus!
