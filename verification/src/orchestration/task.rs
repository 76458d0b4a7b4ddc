//! Units of work: what is to be done, by whom, after which other tasks,
//! and how far it has got.
use std::time::Duration;
use vstd::prelude::*;

use crate::ids::new_id;

verus! {

/// Where a task is in its life.
#[derive(Debug, Clone, PartialEq)]
pub enum TaskStatus {
    Pending,
    Running,
    Completed,
    Failed(String),
    TimedOut,
}

/// How often a task may be tried and how long to wait in between.
#[derive(Debug, Clone)]
pub struct RetryPolicy {
    pub max_attempts: u32,
    pub backoff_ms: u64,
}

impl Default for RetryPolicy {
    /// One attempt, with a back-off of one second.
    fn default() -> (policy: Self)
        ensures
            policy.max_attempts == 1,
            policy.backoff_ms == 1000,
    {
        RetryPolicy { max_attempts: 1, backoff_ms: 1000 }
    }
}

/// The duration of `secs` whole seconds, as `Duration::from_secs` gives it.
pub uninterp spec fn duration_of_secs(secs: u64) -> Duration;

/// Calls `std::time::Duration::from_secs`, which builds the duration of
/// `secs` whole seconds and cannot fail; the result is named
/// `duration_of_secs(secs)`.
#[verifier::external_body]
pub(crate) fn duration_from_secs(secs: u64) -> (d: Duration)
    ensures
        d == duration_of_secs(secs),
{
    Duration::from_secs(secs)
}

/// The time a new task is allowed by default: five minutes.
pub open spec fn default_timeout_secs() -> u64 {
    300
}

/// `task` is as `Task::new(description, expected_output)` makes it (up to
/// its fresh id).
pub open spec fn is_fresh_task(task: Task, description: Seq<char>, expected_output: Seq<char>) -> bool {
    &&& task.description@ == description
    &&& task.expected_output@ == expected_output
    &&& task.assigned_agent_id is None
    &&& task.dependencies@.len() == 0
    &&& task.status is Pending
    &&& task.output is None
    &&& task.retry_policy.max_attempts == 1
    &&& task.retry_policy.backoff_ms == 1000
    &&& task.timeout == Some(duration_of_secs(default_timeout_secs()))
}

/// A unit of work for an agent.
#[derive(Debug, Clone)]
pub struct Task {
    pub id: u128,
    pub description: String,
    pub expected_output: String,
    pub assigned_agent_id: Option<u128>,
    pub dependencies: Vec<u128>,
    pub status: TaskStatus,
    pub output: Option<String>,
    pub retry_policy: RetryPolicy,
    pub timeout: Option<Duration>,
}

impl Task {
    /// A pending task with a fresh id, no agent, no dependencies, the
    /// default retry policy and a timeout of five minutes.
    pub fn new(description: &str, expected_output: &str) -> (task: Task)
        ensures
            is_fresh_task(task, description@, expected_output@),
    {
        Task {
            id: new_id(),
            description: description.to_string(),
            expected_output: expected_output.to_string(),
            assigned_agent_id: None,
            dependencies: Vec::new(),
            status: TaskStatus::Pending,
            output: None,
            retry_policy: RetryPolicy::default(),
            timeout: Some(duration_from_secs(300)),
        }
    }

    /// The same task, assigned to the agent `agent_id`.
    pub fn assign_agent(self, agent_id: u128) -> (task: Task)
        ensures
            task == (Task { assigned_agent_id: Some(agent_id), ..self }),
    {
        let mut task = self;
        task.assigned_agent_id = Some(agent_id);
        task
    }

    /// The same task, which now also waits for the task `task_id`.
    pub fn add_dependency(self, task_id: u128) -> (task: Task)
        ensures
            task.dependencies@ == self.dependencies@.push(task_id),
            task == (Task { dependencies: task.dependencies, ..self }),
    {
        let mut task = self;
        task.dependencies.push(task_id);
        task
    }

    /// The same task, with the retry policy `policy`.
    pub fn with_retry(self, policy: RetryPolicy) -> (task: Task)
        ensures
            task == (Task { retry_policy: policy, ..self }),
    {
        let mut task = self;
        task.retry_policy = policy;
        task
    }

    /// The same task, allowed the time `timeout`.
    pub fn with_timeout(self, timeout: Duration) -> (task: Task)
        ensures
            task == (Task { timeout: Some(timeout), ..self }),
    {
        let mut task = self;
        task.timeout = Some(timeout);
        task
    }
}

} // verus!
