use std::sync::Arc;
use std::time::Duration;
use uuid::Uuid;

use rustcrew::orchestration::agent::{Agent, MemoryScope};
use rustcrew::orchestration::llm::OpenAiAdapter;
use rustcrew::orchestration::task::{RetryPolicy, Task, TaskStatus};

#[test]
fn test_task_creation() {
    let task = Task::new("Desc", "Out");
    assert_eq!(task.description, "Desc");
    assert_eq!(task.expected_output, "Out");
    assert_eq!(task.status, TaskStatus::Pending);
    assert!(task.assigned_agent_id.is_none());
    assert!(task.dependencies.is_empty());
    assert_eq!(task.retry_policy.max_attempts, 1);
    assert_eq!(task.timeout.unwrap(), Duration::from_secs(300));
}

#[test]
fn test_task_builder_methods() {
    let agent_id = Uuid::new_v4().as_u128();
    let dep_id = Uuid::new_v4().as_u128();
    let policy = RetryPolicy { max_attempts: 3, backoff_ms: 500 };

    let task = Task::new("A", "B")
        .assign_agent(agent_id)
        .add_dependency(dep_id)
        .with_retry(policy)
        .with_timeout(Duration::from_secs(10));

    assert_eq!(task.assigned_agent_id, Some(agent_id));
    assert_eq!(task.dependencies.len(), 1);
    assert_eq!(task.dependencies[0], dep_id);
    assert_eq!(task.retry_policy.max_attempts, 3);
    assert_eq!(task.timeout.unwrap(), Duration::from_secs(10));
}

#[test]
fn test_agent_creation() {
    let agent: Agent<(), ()> = Agent::new("TestAgent", "Tester", "Test goal", "Test backstory");
    assert_eq!(agent.name, "TestAgent");
    assert_eq!(agent.role, "Tester");
    assert_eq!(agent.goal, "Test goal");
    assert_eq!(agent.backstory, "Test backstory");
    assert!(agent.tools.is_empty());
    assert!(agent.llm.is_none());
    assert!(matches!(agent.memory_scope, MemoryScope::Agent));
}

#[test]
fn test_agent_add_llm() {
    let llm: Arc<OpenAiAdapter> =
        Arc::new(OpenAiAdapter::new("fake_key".to_string(), "gpt-4o".to_string()));
    let agent: Agent<Arc<OpenAiAdapter>, ()> = Agent::new("A", "Role", "Goal", "Backstory").add_llm(llm);
    assert!(agent.llm.is_some());
}

#[test]
fn task_ids_are_version_four_uuids() {
    let task = Task::new("x", "y");
    assert_eq!((task.id >> 76) & 0xf, 4);
    assert_eq!((task.id >> 62) & 0x3, 2);
    let other = Task::new("x", "y");
    assert_ne!(task.id, other.id);
}

#[test]
fn retry_policy_default_is_one_attempt_after_a_second() {
    let policy = RetryPolicy::default();
    assert_eq!(policy.max_attempts, 1);
    assert_eq!(policy.backoff_ms, 1000);
}

#[test]
fn add_tool_appends_in_order() {
    let agent: Agent<(), u32> = Agent::new("A", "R", "G", "B").add_tool(1).add_tool(2);
    assert_eq!(agent.tools, vec![1, 2]);
    assert_eq!(agent.name, "A");
}
