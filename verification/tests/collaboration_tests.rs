use rustcrew::orchestration::collaboration::{ConsensusSession, VerifierAgent, Vote};
use rustcrew::orchestration::crew::{Crew, CrewStatus};
use rustcrew::orchestration::policy::ToolPolicy;
use rustcrew::orchestration::task::Task;

#[test]
fn consensus_needs_a_strict_majority() {
    let mut s = ConsensusSession::new("ship it", 4);
    assert_eq!(s.goal, "ship it");
    assert_eq!(s.required_votes, 3);
    s.cast_vote(1, Vote::Approve);
    s.cast_vote(2, Vote::Approve);
    assert!(!s.is_reached());
    s.cast_vote(3, Vote::Approve);
    assert!(s.is_reached());
    assert!(!s.is_rejected());
}

#[test]
fn a_later_vote_replaces_an_earlier_one() {
    let mut s = ConsensusSession::new("g", 3);
    s.cast_vote(1, Vote::Approve);
    s.cast_vote(2, Vote::Approve);
    assert!(s.is_reached());
    s.cast_vote(2, Vote::Reject);
    assert!(!s.is_reached());
    s.cast_vote(1, Vote::Reject);
    assert!(s.is_rejected());
    assert_eq!(s.votes.len(), 2);
}

#[test]
fn abstentions_count_for_neither_side() {
    let mut s = ConsensusSession::new("g", 1);
    assert_eq!(s.required_votes, 1);
    s.cast_vote(9, Vote::Abstain);
    assert!(!s.is_reached());
    assert!(!s.is_rejected());
}

#[test]
fn verifier_prompt_quotes_instructions_and_output() {
    let v = VerifierAgent::new("be strict", ());
    assert_eq!(
        v.critique_prompt("42"),
        "Evaluate the following output based on these instructions:\nInstructions: be strict\nOutput: 42\nPlease provide a critique and determine if it's valid."
    );
}

#[test]
fn open_policy_allows_everything() {
    let p = ToolPolicy::new();
    assert!(p.is_allowed("anything", "rm -rf /"));
}

#[test]
fn policy_lists_tools_and_blocks_keywords() {
    let mut p = ToolPolicy::new();
    p.allowed_tools.insert("github".to_string());
    p.blocked_keywords.push("secret".to_string());
    assert!(p.is_allowed("github", "rust-lang/rust"));
    assert!(!p.is_allowed("browser", "rust-lang/rust"));
    assert!(!p.is_allowed("github", "my secret repo"));
    p.blocked_keywords.push(String::new());
    assert!(!p.is_allowed("github", "x"));
}

#[test]
fn crew_keeps_tasks_messages_and_blackboard() {
    let mut crew: Crew<(), (), u8> = Crew::new(vec![]).with_memory(7);
    assert_eq!(crew.memory, Some(7));
    assert_eq!(crew.status, CrewStatus::Idle);
    let task = Task::new("t", "o");
    let id = task.id;
    crew.add_task(task);
    assert_eq!(crew.tasks, vec![id]);
    assert!(crew.task_map.contains_key(&id));
    crew.send_message(1, 2, "hello");
    assert_eq!(crew.messages.len(), 1);
    assert_eq!(crew.messages[0].content, "hello");
    assert_eq!((crew.messages[0].from, crew.messages[0].to), (1, 2));
    crew.update_blackboard("k", "v1");
    crew.update_blackboard("k", "v2");
    assert_eq!(crew.blackboard.get("k").map(|s| s.as_str()), Some("v2"));
}

#[test]
fn a_session_is_never_both_reached_and_rejected() {
    let mut s = ConsensusSession::new("g", 2);
    s.cast_vote(1, Vote::Approve);
    s.cast_vote(2, Vote::Reject);
    assert!(!(s.is_reached() && s.is_rejected()));
    assert!(!s.is_reached() && !s.is_rejected());
}
