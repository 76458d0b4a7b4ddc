//! The orchestration core: tasks, agents, crews, scheduling decisions,
//! collaboration and the prompts exchanged with language models.
pub mod task;
pub mod agent;
pub mod collaboration;
pub mod crew;
pub mod scheduler;
pub mod policy;
pub mod knowledge;
pub mod llm;
pub mod planning;
pub mod reasoning;
