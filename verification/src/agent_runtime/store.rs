//! How overrides are kept.
//!
//! Only overrides are stored. Nothing is stored once every field is back at the agent's default,
//! so that no row and a row without values mean the same.
use crate::agent_runtime::{
    normalizing_settles, validate_runtime_overrides, AgentRuntimeOverrides, Overrides,
};
use crate::agent_runtime::capabilities::refused;
use crate::domain::Agent;
use crate::error::{AppError, Fault};
use vstd::prelude::*;

verus! {

/// The name of the setting that holds an agent's overrides.
pub open spec fn key_of(agent: Agent) -> Seq<char> {
    "agent.runtime."@ + agent.name()
}

/// The name of the setting that holds an agent's overrides.
pub fn key(agent: Agent) -> (r: String)
    ensures
        r@ == key_of(agent),
{
    let mut k: String = "agent.runtime.".to_owned();
    k.append(agent.as_str());
    k
}

/// What is stored, read: nothing stored means no overrides; a text that could not be read is an
/// error that says why.
pub open spec fn read(
    agent: Agent,
    stored: Option<Result<AgentRuntimeOverrides, String>>,
) -> Result<Overrides, Fault> {
    match stored {
        None => Ok(Overrides::none()),
        Some(Ok(o)) => Ok(o.deep_view().normal()),
        Some(Err(why)) => Err(
            Fault::Other(
                agent.shown() + " 的运行时配置已损坏（"@ + key_of(agent) + "）："@ + why@
                    + "。请在 Settings → Agents 重新设置。"@,
            ),
        ),
    }
}

/// The overrides of an agent. `stored` is what the setting holds, as far as it could be read.
pub fn get_runtime_overrides(
    agent: Agent,
    stored: &Option<Result<AgentRuntimeOverrides, String>>,
) -> (r: Result<AgentRuntimeOverrides, AppError>)
    ensures
        match read(agent, *stored) {
            Ok(o) => r matches Ok(x) && x.deep_view() == o,
            Err(f) => r matches Err(e) && e.deep_view() == f,
        },
{
    match stored {
        None => Ok(AgentRuntimeOverrides::default()),
        Some(Ok(o)) => Ok(o.normalized()),
        Some(Err(why)) => {
            let mut message: String = agent.display_name();
            message.append(" 的运行时配置已损坏（");
            message.append(key(agent).as_str());
            message.append("）：");
            message.append(why.as_str());
            message.append("。请在 Settings → Agents 重新设置。");
            Err(AppError::Other(message))
        },
    }
}

/// What is done to the setting.
pub enum SettingWrite {
    Delete { key: String },
    Save { key: String, overrides: AgentRuntimeOverrides },
}

/// What the setting holds after a write.
pub open spec fn stored_after(w: SettingWrite) -> Option<Overrides> {
    match w {
        SettingWrite::Delete { key } => None,
        SettingWrite::Save { key, overrides } => Some(overrides.deep_view()),
    }
}

/// The setting that is written.
pub open spec fn written_key(w: SettingWrite) -> Seq<char> {
    match w {
        SettingWrite::Delete { key } => key@,
        SettingWrite::Save { key, overrides } => key@,
    }
}

/// Sets the overrides of an agent: what is refused is not stored, and what overrides nothing is
/// taken away.
pub fn set_runtime_overrides(agent: Agent, overrides: &AgentRuntimeOverrides) -> (r: Result<
    SettingWrite,
    AppError,
>)
    ensures
        match refused(agent, overrides.deep_view()) {
            Some(f) => r matches Err(e) && e.deep_view() == f,
            None => r matches Ok(w) && written_key(w) == key_of(agent) && stored_after(w) == (
            if overrides.deep_view().normal() == Overrides::none() {
                None
            } else {
                Some(overrides.deep_view().normal())
            }),
        },
{
    match validate_runtime_overrides(agent, overrides) {
        Err(e) => {
            return Err(e);
        },
        Ok(()) => {},
    }
    let normalized = overrides.normalized();
    proof {
        normalizing_settles(overrides.deep_view());
    }
    if normalized.is_default() {
        Ok(SettingWrite::Delete { key: key(agent) })
    } else {
        Ok(SettingWrite::Save { key: key(agent), overrides: normalized })
    }
}

// ---------------------------------------------------------------------------
// Laws
// ---------------------------------------------------------------------------

/// What was set is what is read: with the agent's overrides stored as `set_runtime_overrides`
/// says, reading gives back what was set, without blank values.
pub proof fn what_was_set_is_read(
    agent: Agent,
    overrides: Overrides,
    stored: Option<Result<AgentRuntimeOverrides, String>>,
)
    requires
        match stored {
            None => overrides.normal() == Overrides::none(),
            Some(Ok(o)) => o.deep_view() == overrides.normal(),
            Some(Err(_)) => false,
        },
    ensures
        read(agent, stored) == Ok::<Overrides, Fault>(overrides.normal()),
{
    normalizing_settles(overrides);
}

} // verus!
