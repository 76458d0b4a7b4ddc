//! Agents: a named role with a goal, a backstory, tools and optionally a
//! language model. The tool and model types are left to the caller, so
//! that any adapter can be plugged in.
use vstd::prelude::*;

use crate::ids::new_id;

verus! {

/// How far what an agent remembers is shared.
#[derive(Debug, Clone, Copy, PartialEq, Eq)]
pub enum MemoryScope {
    Agent,
    Crew,
    Global,
}

/// A role-playing worker of a crew, with tools of type `T` and an optional
/// language model of type `L`.
#[derive(Debug, Clone)]
pub struct Agent<L, T> {
    pub id: u128,
    pub name: String,
    pub role: String,
    pub goal: String,
    pub backstory: String,
    pub tools: Vec<T>,
    pub memory_scope: MemoryScope,
    pub llm: Option<L>,
}

impl<L, T> Agent<L, T> {
    /// An agent with a fresh id, no tools, no model, and memory scoped to
    /// itself.
    pub fn new(name: &str, role: &str, goal: &str, backstory: &str) -> (agent: Self)
        ensures
            agent.name@ == name@,
            agent.role@ == role@,
            agent.goal@ == goal@,
            agent.backstory@ == backstory@,
            agent.tools@.len() == 0,
            agent.memory_scope == MemoryScope::Agent,
            agent.llm is None,
    {
        Agent {
            id: new_id(),
            name: name.to_string(),
            role: role.to_string(),
            goal: goal.to_string(),
            backstory: backstory.to_string(),
            tools: Vec::new(),
            memory_scope: MemoryScope::Agent,
            llm: None,
        }
    }

    /// The same agent with `tool` added after its other tools.
    pub fn add_tool(self, tool: T) -> (agent: Self)
        ensures
            agent.tools@ == self.tools@.push(tool),
            agent == (Agent { tools: agent.tools, ..self }),
    {
        let mut agent = self;
        agent.tools.push(tool);
        agent
    }

    /// The same agent, now driven by the model `llm`.
    pub fn add_llm(self, llm: L) -> (agent: Self)
        ensures
            agent == (Agent { llm: Some(llm), ..self }),
    {
        let mut agent = self;
        agent.llm = Some(llm);
        agent
    }
}

} // verus!
