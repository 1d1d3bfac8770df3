//! Which agents there are, and which one is started when nobody says.
use crate::agent_runtime::capabilities::{
    capabilities, capabilities_of, refused, AgentRuntimeCapabilities,
};
use crate::agent_runtime::discovery::{
    discover_runtime_options, effort_levels_for, efforts, found, AgentRuntimeDiscovery, ModelOption,
};
use crate::agent_runtime::store::{
    get_runtime_overrides, read, set_runtime_overrides, stored_after, written_key, SettingWrite,
};
use crate::agent_runtime::{AgentRuntimeOverrides, Overrides};
use crate::domain::{agent_names_are_distinct, copy_text, Agent, AgentInstallation};
use crate::error::{other, AppError, Fault};
use crate::text::{same, texts};
use vstd::prelude::*;

verus! {

/// The setting that holds the agent to start when nobody says.
pub const DEFAULT_AGENT_KEY: &'static str = "launcher.default_agent";

/// Where an agent was found last.
pub open spec fn installation_in(rows: Seq<AgentInstallation>, agent: Agent) -> Option<
    AgentInstallation,
>
    decreases rows.len(),
{
    if rows.len() == 0 {
        None
    } else if rows[0].agent == agent {
        Some(rows[0])
    } else {
        installation_in(rows.drop_first(), agent)
    }
}

/// The installations but those of an agent.
pub open spec fn without_agent(rows: Seq<AgentInstallation>, agent: Agent) -> Seq<
    AgentInstallation,
> {
    rows.filter(|i: AgentInstallation| i.agent != agent)
}

/// The agent that a name is of.
pub open spec fn agent_named(name: Seq<char>) -> Option<Agent> {
    if exists|a: Agent| #[trigger] a.name() == name {
        Some(choose|a: Agent| #[trigger] a.name() == name)
    } else {
        None
    }
}

/// The first of some agents that was found.
pub open spec fn first_found(agents: Seq<Agent>, rows: Seq<AgentInstallation>) -> Option<Agent>
    decreases agents.len(),
{
    if agents.len() == 0 {
        None
    } else if installation_in(rows, agents[0]) is Some {
        Some(agents[0])
    } else {
        first_found(agents.drop_first(), rows)
    }
}

/// The agent to start when nobody says: the one that was chosen, found or not; else the first
/// that was found.
pub open spec fn default_agent(setting: Option<Seq<char>>, rows: Seq<AgentInstallation>) -> Option<
    Agent,
> {
    match setting {
        Some(name) if agent_named(name) is Some => agent_named(name),
        _ => first_found(Agent::every(), rows),
    }
}

proof fn a_name_is_of_its_agent(a: Agent)
    ensures
        agent_named(a.name()) == Some(a),
{
    let b = choose|b: Agent| #[trigger] b.name() == a.name();
    assert(a.name() == a.name());
    agent_names_are_distinct(a, b);
}

fn find_installation(rows: &Vec<AgentInstallation>, agent: Agent) -> (r: Option<&AgentInstallation>)
    ensures
        match r {
            Some(i) => installation_in(rows@, agent) == Some(*i),
            None => installation_in(rows@, agent) is None,
        },
{
    let mut i: usize = 0;
    assert(rows@.skip(0) =~= rows@);
    while i < rows.len()
        invariant
            i <= rows@.len(),
            installation_in(rows@, agent) == installation_in(rows@.skip(i as int), agent),
        decreases rows@.len() - i,
    {
        assert(rows@.skip(i as int).drop_first() =~= rows@.skip(i + 1));
        if rows[i].agent == agent {
            return Some(&rows[i]);
        }
        i = i + 1;
    }
    None
}

fn named_agent(name: &str) -> (r: Option<Agent>)
    ensures
        r == agent_named(name@),
{
    let r = Agent::parse(name);
    proof {
        if let Some(a) = r {
            a_name_is_of_its_agent(a);
        }
    }
    r
}

/// The agent to start when nobody says. `setting` is what the setting holds.
pub fn default_agent_of(setting: &Option<String>, installations: &Vec<AgentInstallation>) -> (r:
    Option<Agent>)
    ensures
        r == default_agent(setting.deep_view(), installations@),
{
    if let Some(v) = setting {
        if let Some(a) = named_agent(v.as_str()) {
            return Some(a);
        }
    }
    let all = Agent::all();
    let mut i: usize = 0;
    assert(all@.skip(0) =~= all@);
    while i < all.len()
        invariant
            i <= all@.len(),
            all@ == Agent::every(),
            first_found(Agent::every(), installations@) == first_found(
                all@.skip(i as int),
                installations@,
            ),
            default_agent(setting.deep_view(), installations@) == first_found(
                Agent::every(),
                installations@,
            ),
        decreases all@.len() - i,
    {
        assert(all@.skip(i as int).drop_first() =~= all@.skip(i + 1));
        if find_installation(installations, all[i]).is_some() {
            return Some(all[i]);
        }
        i = i + 1;
    }
    None
}

/// The name of the agent to start when nobody says.
pub fn get_default_agent(setting: &Option<String>, installations: &Vec<AgentInstallation>) -> (r:
    Option<String>)
    ensures
        r.deep_view() == (match default_agent(setting.deep_view(), installations@) {
            Some(a) => Some(a.name()),
            None => None,
        }),
{
    match default_agent_of(setting, installations) {
        Some(a) => Some(a.as_str().to_owned()),
        None => None,
    }
}

/// What the setting is to hold when an agent is chosen.
pub fn set_default_agent(agent: &str) -> (r: Result<String, AppError>)
    ensures
        match (agent_named(agent@), r) {
            (Some(a), Ok(v)) => v@ == a.name(),
            (None, Err(e)) => e.deep_view() == Fault::Other("未知 Agent"@),
            _ => false,
        },
{
    match named_agent(agent) {
        Some(a) => Ok(a.as_str().to_owned()),
        None => Err(other("未知 Agent")),
    }
}

/// Takes in where an agent was looked for: where it was found, it is kept in place of what was
/// known; where it was not, what was known is forgotten.
pub fn record_installation_probe(
    installations: &mut Vec<AgentInstallation>,
    agent: Agent,
    resolved: Option<AgentInstallation>,
)
    ensures
        final(installations)@ == (match resolved {
            Some(i) => without_agent(old(installations)@, i.agent).push(i),
            None => without_agent(old(installations)@, agent),
        }),
{
    match resolved {
        Some(i) => {
            forget_agent(installations, i.agent);
            installations.push(i);
        },
        None => {
            forget_agent(installations, agent);
        },
    }
}

fn forget_agent(rows: &mut Vec<AgentInstallation>, agent: Agent)
    ensures
        final(rows)@ == without_agent(old(rows)@, agent),
{
    let ghost all = rows@;
    let ghost keep = |i: AgentInstallation| i.agent != agent;
    let mut i: usize = 0;
    proof {
        reveal(Seq::filter);
        assert(all.take(0).filter(keep) =~= Seq::<AgentInstallation>::empty());
        assert(rows@ =~= all.take(0).filter(keep) + all.skip(0));
    }
    let mut seen: usize = 0;
    let total: usize = rows.len();
    while seen < total
        invariant
            keep == (|i: AgentInstallation| i.agent != agent),
            i <= seen <= total == all.len(),
            all.take(seen as int).filter(keep).len() == i,
            rows@ == all.take(seen as int).filter(keep) + all.skip(seen as int),
        decreases total - seen,
    {
        let ghost kept = all.take(seen as int).filter(keep);
        assert(rows@[i as int] == all[seen as int]);
        proof {
            reveal(Seq::filter);
            assert(all.take(seen + 1).drop_last() =~= all.take(seen as int));
            assert(all.take(seen + 1).last() == all[seen as int]);
            assert(all.skip(seen as int) =~= seq![all[seen as int]] + all.skip(seen + 1));
        }
        if rows[i].agent == agent {
            rows.remove(i);
            assert(rows@ =~= kept + all.skip(seen + 1));
        } else {
            i = i + 1;
            assert(rows@ =~= kept.push(all[seen as int]) + all.skip(seen + 1));
        }
        seen = seen + 1;
    }
    assert(all.take(seen as int) =~= all);
    assert(all.skip(seen as int) =~= Seq::<AgentInstallation>::empty());
}

/// The agent that a name is of.
pub fn agent_of(s: &str) -> (r: Result<Agent, AppError>)
    ensures
        match (agent_named(s@), r) {
            (Some(a), Ok(b)) => a == b,
            (None, Err(e)) => e.deep_view() == Fault::Other("未知 Agent: "@ + s@),
            _ => false,
        },
{
    match named_agent(s) {
        Some(a) => Ok(a),
        None => {
            let mut message: String = "未知 Agent: ".to_owned();
            message.append(s);
            Err(AppError::Other(message))
        },
    }
}

/// What the setting is to hold when the agent that answers questions is chosen.
pub fn assistant_config_set(agent: &str) -> (r: Result<String, AppError>)
    ensures
        match r {
            Ok(v) => v@ == agent@ && (agent@ == "none"@ || agent_named(agent@) is Some),
            Err(e) => agent@ != "none"@ && agent_named(agent@) is None && e.deep_view()
                == Fault::Other("未知 Agent: "@ + agent@),
        },
{
    if !same(agent, "none") {
        match agent_of(agent) {
            Ok(_) => {},
            Err(e) => {
                return Err(e);
            },
        }
    }
    Ok(agent.to_owned())
}

/// Whether an agent was found, and where.
pub struct AgentStatus {
    pub agent: Agent,
    pub name: String,
    pub detected: bool,
    pub executable: Option<String>,
    pub version: Option<String>,
}

/// Whether an agent was found, and where.
pub open spec fn is_status_of(
    s: AgentStatus,
    agent: Agent,
    installation: Option<AgentInstallation>,
) -> bool {
    &&& s.agent == agent
    &&& s.name@ == agent.shown()
    &&& match installation {
        Some(i) => s.detected && s.executable == Some(i.executable_path) && s.version == i.version,
        None => !s.detected && s.executable is None && s.version is None,
    }
}

/// Of every agent, whether it was found, and where.
pub fn get_agent_status(installations: &Vec<AgentInstallation>) -> (r: Vec<AgentStatus>)
    ensures
        r@.len() == Agent::every().len(),
        forall|k: int|
            0 <= k < r@.len() ==> is_status_of(
                #[trigger] r@[k],
                Agent::every()[k],
                installation_in(installations@, Agent::every()[k]),
            ),
{
    let all = Agent::all();
    let mut out: Vec<AgentStatus> = Vec::new();
    let mut i: usize = 0;
    while i < all.len()
        invariant
            i <= all@.len(),
            all@ == Agent::every(),
            out@.len() == i,
            forall|k: int|
                0 <= k < i ==> is_status_of(
                    #[trigger] out@[k],
                    Agent::every()[k],
                    installation_in(installations@, Agent::every()[k]),
                ),
        decreases all@.len() - i,
    {
        let found = find_installation(installations, all[i]);
        out.push(
            AgentStatus {
                agent: all[i],
                name: all[i].display_name(),
                detected: found.is_some(),
                executable: match found {
                    Some(x) => Some(x.executable_path.clone()),
                    None => None,
                },
                version: match found {
                    Some(x) => copy_text(&x.version),
                    None => None,
                },
            },
        );
        i = i + 1;
    }
    out
}

/// What the settings show of an agent. The models are asked for separately.
pub struct AgentRuntimeSettings {
    pub agent: Agent,
    pub detected: bool,
    pub executable: Option<String>,
    pub version: Option<String>,
    pub overrides: AgentRuntimeOverrides,
    pub capabilities: AgentRuntimeCapabilities,
    pub models: Vec<ModelOption>,
    pub model_source: &'static str,
    pub effort_levels: Vec<String>,
    pub warnings: Vec<String>,
}

impl AgentRuntimeSettings {
    /// Whether this is what the settings show of an agent.
    pub open spec fn shows(
        self,
        agent: Agent,
        installation: Option<AgentInstallation>,
        overrides: Overrides,
    ) -> bool {
        &&& self.agent == agent
        &&& match installation {
            Some(i) => self.detected && self.executable == Some(i.executable_path) && self.version
                == i.version,
            None => !self.detected && self.executable is None && self.version is None,
        }
        &&& self.overrides.deep_view() == overrides
        &&& self.capabilities == capabilities(agent)
        &&& self.models@.len() == 0
        &&& self.model_source@ == "not_loaded"@
        &&& texts(self.effort_levels@) == efforts(agent)
        &&& self.warnings@.len() == 0
    }
}

/// What the settings show of an agent. `stored` is what its setting holds.
pub fn runtime_settings(
    agent: Agent,
    installations: &Vec<AgentInstallation>,
    stored: &Option<Result<AgentRuntimeOverrides, String>>,
) -> (r: Result<AgentRuntimeSettings, AppError>)
    ensures
        match read(agent, *stored) {
            Ok(o) => r matches Ok(s) && s.shows(agent, installation_in(installations@, agent), o),
            Err(f) => r matches Err(e) && e.deep_view() == f,
        },
{
    let found = find_installation(installations, agent);
    let overrides = match get_runtime_overrides(agent, stored) {
        Ok(o) => o,
        Err(e) => {
            return Err(e);
        },
    };
    Ok(
        AgentRuntimeSettings {
            agent,
            detected: found.is_some(),
            executable: match found {
                Some(x) => Some(x.executable_path.clone()),
                None => None,
            },
            version: match found {
                Some(x) => copy_text(&x.version),
                None => None,
            },
            overrides,
            capabilities: capabilities_of(agent),
            models: Vec::new(),
            model_source: "not_loaded",
            effort_levels: effort_levels_for(agent),
            warnings: Vec::new(),
        },
    )
}

/// What the settings show of the agent with a name.
pub fn get_agent_runtime_settings(
    agent: &str,
    installations: &Vec<AgentInstallation>,
    stored: &Option<Result<AgentRuntimeOverrides, String>>,
) -> (r: Result<AgentRuntimeSettings, AppError>)
    ensures
        match agent_named(agent@) {
            Some(a) => match read(a, *stored) {
                Ok(o) => r matches Ok(s) && s.shows(a, installation_in(installations@, a), o),
                Err(f) => r matches Err(e) && e.deep_view() == f,
            },
            None => r matches Err(e) && e.deep_view() == Fault::Other("未知 Agent: "@ + agent@),
        },
{
    match agent_of(agent) {
        Ok(a) => runtime_settings(a, installations, stored),
        Err(e) => Err(e),
    }
}

/// Sets the overrides of the agent with a name: what is to be written, and what the settings show
/// afterwards.
pub fn set_agent_runtime_overrides(
    agent: &str,
    installations: &Vec<AgentInstallation>,
    overrides: &AgentRuntimeOverrides,
) -> (r: Result<(SettingWrite, AgentRuntimeSettings), AppError>)
    ensures
        match agent_named(agent@) {
            Some(a) => match refused(a, overrides.deep_view()) {
                Some(f) => r matches Err(e) && e.deep_view() == f,
                None => r matches Ok((w, s)) && written_key(w)
                    == crate::agent_runtime::store::key_of(a) && stored_after(w) == (
                if overrides.deep_view().normal() == Overrides::none() {
                    None
                } else {
                    Some(overrides.deep_view().normal())
                }) && s.shows(
                    a,
                    installation_in(installations@, a),
                    overrides.deep_view().normal(),
                ),
            },
            None => r matches Err(e) && e.deep_view() == Fault::Other("未知 Agent: "@ + agent@),
        },
{
    let a = match agent_of(agent) {
        Ok(a) => a,
        Err(e) => {
            return Err(e);
        },
    };
    match set_runtime_overrides(a, overrides) {
        Ok(w) => {
            proof {
                crate::agent_runtime::normalizing_settles(overrides.deep_view());
            }
            let stored: Option<Result<AgentRuntimeOverrides, String>> = Some(
                Ok(overrides.normalized()),
            );
            match runtime_settings(a, installations, &stored) {
                Ok(s) => Ok((w, s)),
                Err(e) => Err(e),
            }
        },
        Err(e) => Err(e),
    }
}

/// What can be set for the agent with a name. `probe` is what its command line printed, or why it
/// could not be asked.
pub fn refresh_agent_runtime_options(agent: &str, probe: &Result<String, String>) -> (r: Result<
    AgentRuntimeDiscovery,
    AppError,
>)
    ensures
        match agent_named(agent@) {
            Some(a) => r matches Ok(d) && d.capabilities == capabilities(a) && d.models.deep_view()
                == found(a, *probe).0.choices() && d.model_source@ == found(a, *probe).0.origin()
                && texts(d.effort_levels@) == efforts(a) && texts(d.warnings@) == found(
                a,
                *probe,
            ).1,
            None => r matches Err(e) && e.deep_view() == Fault::Other("未知 Agent: "@ + agent@),
        },
{
    match agent_of(agent) {
        Ok(a) => Ok(discover_runtime_options(a, probe)),
        Err(e) => Err(e),
    }
}

// ---------------------------------------------------------------------------
// Laws
// ---------------------------------------------------------------------------

/// What was chosen is what is started, found or not.
pub proof fn a_choice_is_kept(a: Agent, rows: Seq<AgentInstallation>)
    ensures
        default_agent(Some(a.name()), rows) == Some(a),
{
    a_name_is_of_its_agent(a);
}

proof fn not_there(rows: Seq<AgentInstallation>, agent: Agent)
    requires
        forall|k: int| 0 <= k < rows.len() ==> (#[trigger] rows[k]).agent != agent,
    ensures
        installation_in(rows, agent) is None,
    decreases rows.len(),
{
    if rows.len() > 0 {
        let rest = rows.drop_first();
        assert forall|k: int| 0 <= k < rest.len() implies (#[trigger] rest[k]).agent != agent by {
            assert(rest[k] == rows[k + 1]);
        }
        not_there(rest, agent);
    }
}

proof fn none_is_left(rows: Seq<AgentInstallation>, agent: Agent)
    ensures
        forall|k: int|
            0 <= k < without_agent(rows, agent).len() ==> (#[trigger] without_agent(
                rows,
                agent,
            )[k]).agent != agent,
    decreases rows.len(),
{
    reveal(Seq::filter);
    if rows.len() > 0 {
        none_is_left(rows.drop_last(), agent);
        let r = without_agent(rows, agent);
        let f = without_agent(rows.drop_last(), agent);
        assert forall|k: int| 0 <= k < r.len() implies (#[trigger] r[k]).agent != agent by {
            if k < f.len() {
                assert(r[k] == f[k]);
            }
        }
    }
}

/// An agent that is no longer found is no longer known, and is not started unless it was chosen.
pub proof fn what_is_gone_is_forgotten(
    rows: Seq<AgentInstallation>,
    agent: Agent,
    setting: Option<Seq<char>>,
)
    requires
        setting matches Some(name) ==> agent_named(name) != Some(agent),
    ensures
        installation_in(without_agent(rows, agent), agent) is None,
        default_agent(setting, without_agent(rows, agent)) != Some(agent),
{
    none_is_left(rows, agent);
    not_there(without_agent(rows, agent), agent);
    first_is_found(Agent::every(), without_agent(rows, agent));
}

proof fn first_is_found(agents: Seq<Agent>, rows: Seq<AgentInstallation>)
    ensures
        first_found(agents, rows) matches Some(a) ==> installation_in(rows, a) is Some,
    decreases agents.len(),
{
    if agents.len() > 0 {
        first_is_found(agents.drop_first(), rows);
    }
}

proof fn last_counts(rows: Seq<AgentInstallation>, i: AgentInstallation)
    requires
        forall|k: int| 0 <= k < rows.len() ==> (#[trigger] rows[k]).agent != i.agent,
    ensures
        installation_in(rows.push(i), i.agent) == Some(i),
    decreases rows.len(),
{
    if rows.len() > 0 {
        let rest = rows.drop_first();
        assert forall|k: int| 0 <= k < rest.len() implies (#[trigger] rest[k]).agent != i.agent by {
            assert(rest[k] == rows[k + 1]);
        }
        last_counts(rest, i);
        assert(rows.push(i).drop_first() =~= rest.push(i));
        assert(rows.push(i)[0] == rows[0]);
    }
}

/// What was found is known.
pub proof fn what_was_found_is_known(rows: Seq<AgentInstallation>, i: AgentInstallation)
    ensures
        installation_in(without_agent(rows, i.agent).push(i), i.agent) == Some(i),
{
    none_is_left(rows, i.agent);
    last_counts(without_agent(rows, i.agent), i);
}

} // verus!
