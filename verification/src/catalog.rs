use vstd::prelude::*;

verus! {

/// A skill that an agent can be given.
#[derive(Debug, Clone, PartialEq, Eq)]
pub struct SkillDescriptor {
    pub id: String,
    pub description: String,
    pub source: String,
}

/// One agent profile of the roster.
#[derive(Debug, Clone, PartialEq, Eq)]
pub struct AgentDescriptor {
    pub id: String,
    pub role: String,
    pub description: String,
}

/// The agent profiles that LEAN ships with.
#[derive(Debug, Clone, PartialEq, Eq)]
pub struct AgentRoster {
    pub agents: Vec<AgentDescriptor>,
}

/// No skills are built in yet.
pub fn built_in_skills() -> (skills: Vec<SkillDescriptor>)
    ensures
        skills@.len() == 0,
{
    Vec::new()
}

/// The roster holds exactly the default `developer` implementation agent.
pub fn built_in_agents() -> (roster: AgentRoster)
    ensures
        roster.agents@.len() == 1,
        roster.agents@[0].id@ == "developer"@,
        roster.agents@[0].role@ == "implementation"@,
        roster.agents@[0].description@ == "Default LEAN implementation agent profile"@,
{
    let agent = AgentDescriptor {
        id: "developer".to_owned(),
        role: "implementation".to_owned(),
        description: "Default LEAN implementation agent profile".to_owned(),
    };
    let mut agents = Vec::new();
    agents.push(agent);
    AgentRoster { agents }
}

} // verus!
