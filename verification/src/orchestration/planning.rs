//! Planning: a model breaks a goal into tasks.
use vstd::prelude::*;
use vstd::string::*;

use crate::orchestration::task::{is_fresh_task, Task};

verus! {

/// An agent that asks its model of type `L` for a plan.
pub struct PlannerAgent<L> {
    pub llm: L,
}

/// One step of a plan, as a model describes it.
#[derive(Debug, Clone)]
pub struct TaskPlan {
    pub description: String,
    pub expected_output: String,
}

/// `tasks` are fresh tasks made from `plans`, one for one, in order.
pub open spec fn tasks_match_plans(tasks: Seq<Task>, plans: Seq<TaskPlan>) -> bool {
    &&& tasks.len() == plans.len()
    &&& forall|i: int|
        0 <= i < plans.len() ==> is_fresh_task(
            #[trigger] tasks[i],
            plans[i].description@,
            plans[i].expected_output@,
        )
}

/// A fresh task for every step of `plans`, in order.
pub fn tasks_from_plans(plans: &Vec<TaskPlan>) -> (tasks: Vec<Task>)
    ensures
        tasks_match_plans(tasks@, plans@),
{
    let mut tasks: Vec<Task> = Vec::new();
    let mut i: usize = 0;
    while i < plans.len()
        invariant
            i <= plans@.len(),
            tasks_match_plans(tasks@, plans@.take(i as int)),
        decreases plans.len() - i,
    {
        let task = Task::new(plans[i].description.as_str(), plans[i].expected_output.as_str());
        tasks.push(task);
        i = i + 1;
        assert forall|k: int| 0 <= k < i implies is_fresh_task(
            #[trigger] tasks@[k],
            plans@.take(i as int)[k].description@,
            plans@.take(i as int)[k].expected_output@,
        ) by {
            if k < i - 1 {
                assert(plans@.take(i - 1)[k] == plans@.take(i as int)[k]);
            }
        }
    }
    assert(plans@.take(plans.len() as int) =~= plans@);
    tasks
}

impl<L> PlannerAgent<L> {
    /// A planner asking the model `llm`.
    pub fn new(llm: L) -> (planner: Self)
        ensures
            planner.llm == llm,
    {
        PlannerAgent { llm }
    }

    /// The prompt that asks the model to break `goal` into tasks.
    pub fn plan_prompt(&self, goal: &str) -> (prompt: String)
        ensures
            prompt@ == "You are an expert project planner. Break down the following goal into a sequence of actionable tasks:\nGOAL: "@
                + goal@
                + "\nOutput strictly a JSON array of objects. Each object must have a 'description' and 'expected_output' field."@,
    {
        let mut prompt = "You are an expert project planner. Break down the following goal into a sequence of actionable tasks:\nGOAL: ".to_string();
        prompt.append(goal);
        prompt.append(
            "\nOutput strictly a JSON array of objects. Each object must have a 'description' and 'expected_output' field.",
        );
        prompt
    }

    /// The planned tasks, from the steps parsed out of the model's reply,
    /// or the error explaining why the reply could not be parsed.
    pub fn planned_tasks(parsed: Result<Vec<TaskPlan>, String>) -> (tasks: Result<Vec<Task>, String>)
        ensures
            match parsed {
                Ok(plans) => tasks matches Ok(t) && tasks_match_plans(t@, plans@),
                Err(error) => tasks matches Err(message) && message@
                    == "Failed to parse LLM planner response: "@ + error@
                    + ". Re-try with clearer instructions."@,
            },
    {
        match parsed {
            Ok(plans) => Ok(tasks_from_plans(&plans)),
            Err(error) => {
                let mut message = "Failed to parse LLM planner response: ".to_string();
                message.append(error.as_str());
                message.append(". Re-try with clearer instructions.");
                Err(message)
            },
        }
    }
}

} // verus!
