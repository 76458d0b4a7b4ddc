//! The requests the HTTP interface accepts, and how a crew is built from
//! one.
use vstd::prelude::*;
use vstd::string::*;

use crate::orchestration::agent::{Agent, MemoryScope};
use crate::orchestration::crew::{Crew, CrewStatus};
use crate::orchestration::task::{is_fresh_task, Task};

verus! {

/// A request to create a crew.
#[derive(Debug, Clone)]
pub struct CreateCrewRequest {
    pub name: String,
    pub agents: Vec<AgentSpec>,
    pub tasks: Vec<TaskSpec>,
}

/// An agent, as a request describes it.
#[derive(Debug, Clone)]
pub struct AgentSpec {
    pub name: String,
    pub role: String,
    pub goal: String,
    pub backstory: String,
}

/// A task, as a request describes it, with the position of its agent in
/// the request's list of agents.
#[derive(Debug, Clone)]
pub struct TaskSpec {
    pub description: String,
    pub expected_output: String,
    pub agent_index: usize,
}

/// The task specs whose agent position is below `agent_count`, in order:
/// the others are dropped.
pub open spec fn placeable_tasks(specs: Seq<TaskSpec>, agent_count: nat) -> Seq<TaskSpec>
    decreases specs.len(),
{
    if specs.len() == 0 {
        Seq::empty()
    } else {
        let before = placeable_tasks(specs.drop_last(), agent_count);
        if specs.last().agent_index < agent_count {
            before.push(specs.last())
        } else {
            before
        }
    }
}

/// `agent` is a new agent made from `spec`.
pub open spec fn agent_from_spec<L, T>(agent: Agent<L, T>, spec: AgentSpec) -> bool {
    &&& agent.name@ == spec.name@
    &&& agent.role@ == spec.role@
    &&& agent.goal@ == spec.goal@
    &&& agent.backstory@ == spec.backstory@
    &&& agent.tools@.len() == 0
    &&& agent.memory_scope == MemoryScope::Agent
    &&& agent.llm is None
}

/// `task` is a new task made from `spec` and assigned to the agent `agent_id`.
pub open spec fn task_from_spec(task: Task, spec: TaskSpec, agent_id: u128) -> bool {
    &&& is_fresh_task(
        Task { assigned_agent_id: None, ..task },
        spec.description@,
        spec.expected_output@,
    )
    &&& task.assigned_agent_id == Some(agent_id)
}

/// The text of a run's status once the scheduler has returned.
pub open spec fn run_status_text(outcome: Result<(), String>) -> Seq<char> {
    match outcome {
        Ok(_) => "Completed"@,
        Err(error) => "Failed: "@ + error@,
    }
}

/// The status recorded for a run once the scheduler has returned.
pub fn run_status(outcome: &Result<(), String>) -> (status: String)
    ensures
        status@ == run_status_text(*outcome),
{
    match outcome {
        Ok(_) => "Completed".to_string(),
        Err(error) => {
            let mut status = "Failed: ".to_string();
            status.append(error.as_str());
            status
        },
    }
}

/// The crew a request describes: one new agent per agent spec, in order,
/// and one new task per task spec whose agent exists, assigned to that
/// agent; task specs naming no agent of the request are dropped. Task ids
/// are random; the contract on each task's content is stated for the case
/// in which they all differ.
pub fn build_crew<L, T, M>(request: &CreateCrewRequest) -> (crew: Crew<L, T, M>)
    ensures
        crew.agents@.len() == request.agents@.len(),
        forall|i: int|
            0 <= i < request.agents@.len() ==> agent_from_spec(
                #[trigger] crew.agents@[i],
                request.agents@[i],
            ),
        crew.tasks@.len() == placeable_tasks(request.tasks@, request.agents@.len() as nat).len(),
        crew.tasks@.no_duplicates() ==> forall|k: int|
            0 <= k < crew.tasks@.len() ==> task_from_spec(
                crew.task_map@[#[trigger] crew.tasks@[k]],
                placeable_tasks(request.tasks@, request.agents@.len() as nat)[k],
                crew.agents@[placeable_tasks(
                    request.tasks@,
                    request.agents@.len() as nat,
                )[k].agent_index as int].id,
            ),
        crew.tasks_registered(),
        crew.memory is None,
        crew.execution_trace@.len() == 0,
        crew.status == CrewStatus::Idle,
        crew.messages@.len() == 0,
{
    let mut agents: Vec<Agent<L, T>> = Vec::new();
    let mut i: usize = 0;
    while i < request.agents.len()
        invariant
            i <= request.agents@.len(),
            agents@.len() == i,
            forall|j: int| 0 <= j < i ==> agent_from_spec(#[trigger] agents@[j], request.agents@[j]),
        decreases request.agents.len() - i,
    {
        let spec = &request.agents[i];
        let agent = Agent::new(
            spec.name.as_str(),
            spec.role.as_str(),
            spec.goal.as_str(),
            spec.backstory.as_str(),
        );
        agents.push(agent);
        i = i + 1;
    }
    let mut crew: Crew<L, T, M> = Crew::new(agents);
    let ghost n = request.agents@.len() as nat;
    let mut t: usize = 0;
    while t < request.tasks.len()
        invariant
            t <= request.tasks@.len(),
            n == request.agents@.len(),
            crew.agents@.len() == n,
            forall|j: int| 0 <= j < n ==> agent_from_spec(#[trigger] crew.agents@[j], request.agents@[j]),
            crew.tasks@.len() == placeable_tasks(request.tasks@.take(t as int), n).len(),
            crew.tasks@.no_duplicates() ==> forall|k: int|
                0 <= k < crew.tasks@.len() ==> task_from_spec(
                    crew.task_map@[#[trigger] crew.tasks@[k]],
                    placeable_tasks(request.tasks@.take(t as int), n)[k],
                    crew.agents@[placeable_tasks(request.tasks@.take(t as int), n)[k].agent_index as int].id,
                ),
            forall|k: int| 0 <= k < placeable_tasks(request.tasks@.take(t as int), n).len()
                ==> #[trigger] placeable_tasks(request.tasks@.take(t as int), n)[k].agent_index < n,
            crew.tasks_registered(),
            crew.memory is None,
            crew.execution_trace@.len() == 0,
            crew.status == CrewStatus::Idle,
            crew.messages@.len() == 0,
        decreases request.tasks.len() - t,
    {
        let ghost prefix = request.tasks@.take(t as int);
        let ghost before = placeable_tasks(prefix, n);
        assert(request.tasks@.take(t + 1).drop_last() =~= prefix);
        assert(request.tasks@.take(t + 1).last() == request.tasks@[t as int]);
        let spec = &request.tasks[t];
        if spec.agent_index < crew.agents.len() {
            let agent_id = crew.agents[spec.agent_index].id;
            let task = Task::new(spec.description.as_str(), spec.expected_output.as_str()).assign_agent(
                agent_id,
            );
            let ghost old_tasks = crew.tasks@;
            let ghost old_map = crew.task_map@;
            let ghost new_id = task.id;
            crew.add_task(task);
            proof {
                let after = placeable_tasks(request.tasks@.take(t + 1), n);
                assert(after == before.push(request.tasks@[t as int]));
                if crew.tasks@.no_duplicates() {
                    assert(old_tasks.no_duplicates()) by {
                        assert forall|a: int, b: int|
                            0 <= a < old_tasks.len() && 0 <= b < old_tasks.len() && a != b implies old_tasks[a]
                            != old_tasks[b] by {
                            assert(crew.tasks@[a] == old_tasks[a]);
                            assert(crew.tasks@[b] == old_tasks[b]);
                        }
                    }
                    assert forall|k: int| 0 <= k < crew.tasks@.len() implies task_from_spec(
                        crew.task_map@[#[trigger] crew.tasks@[k]],
                        after[k],
                        crew.agents@[after[k].agent_index as int].id,
                    ) by {
                        if k < old_tasks.len() {
                            assert(crew.tasks@[k] == old_tasks[k]);
                            assert(old_tasks[k] != new_id) by {
                                assert(crew.tasks@[old_tasks.len() as int] == new_id);
                            }
                            assert(after[k] == before[k]);
                        } else {
                            assert(crew.tasks@[k] == new_id);
                        }
                    }
                }
                assert forall|k: int| 0 <= k < after.len() implies #[trigger] after[k].agent_index < n by {
                    if k < before.len() {
                        assert(after[k] == before[k]);
                    }
                }
            }
        } else {
            proof {
                let after = placeable_tasks(request.tasks@.take(t + 1), n);
                assert(after == before);
            }
        }
        t = t + 1;
    }
    assert(request.tasks@.take(request.tasks@.len() as int) =~= request.tasks@);
    crew
}

} // verus!
