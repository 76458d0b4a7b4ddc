use std::collections::HashSet;

use rustcrew::orchestration::agent::Agent;
use rustcrew::orchestration::crew::{Crew, CrewStatus};
use rustcrew::orchestration::scheduler::{task_output, RunStep};
use rustcrew::orchestration::task::{Task, TaskStatus};

type TestCrew = Crew<String, (), ()>;

/// Runs a crew to the end the way an executor would, with each agent's
/// model replying with its own name, and records the order of launches.
fn drive(crew: &mut TestCrew, cancel_after: Option<usize>) -> Vec<u128> {
    let mut done: HashSet<u128> = HashSet::new();
    let mut launched = Vec::new();
    let run_tasks = crew.tasks.clone();
    loop {
        match crew.next_step(&run_tasks, &done) {
            RunStep::Finish => {
                crew.finish_run();
                break;
            }
            RunStep::Wait => panic!("the crew is stuck"),
            RunStep::Launch(ids) => {
                for id in ids {
                    let launch = crew.begin_task(id).expect("known task");
                    let reply = launch
                        .agent_index
                        .and_then(|k| crew.agents[k].llm.clone())
                        .map(|name| Ok(name));
                    let output = task_output(reply, &launch.description);
                    crew.complete_task(id, output);
                    done.insert(id);
                    launched.push(id);
                    if cancel_after == Some(launched.len()) {
                        crew.status = CrewStatus::Cancelled;
                    }
                }
            }
        }
    }
    launched
}

#[test]
fn test_end_to_end_crew_execution() {
    let agent: Agent<String, ()> = Agent::new("TestAgent", "Tester", "Run basic tests", "A senior testing engineer");
    let task = Task::new("Write a simple string", "The string 'hello world'").assign_agent(agent.id);
    let mut crew: TestCrew = Crew::new(vec![agent]);
    crew.add_task(task);
    drive(&mut crew, None);
    assert_eq!(crew.status, CrewStatus::Completed, "Crew should be marked as completed.");
    let task_id = crew.tasks[0];
    let executed_task = crew.task_map.get(&task_id).unwrap();
    assert_eq!(executed_task.status, TaskStatus::Completed, "Task should be completed.");
    assert!(executed_task.output.is_some(), "Task should have generated output.");
    assert_eq!(executed_task.output.as_deref(), Some("Executed: Write a simple string"));
}

#[test]
fn test_task_dependencies_and_determinism() {
    let agent: Agent<String, ()> = Agent::new("A1", "Worker", "Do work", "Worker");
    let task1 = Task::new("Task 1", "Output 1").assign_agent(agent.id);
    let mut task2 = Task::new("Task 2", "Output 2").assign_agent(agent.id);
    task2.dependencies.push(task1.id); // task2 depends on task1
    let t1_id = task1.id;
    let t2_id = task2.id;
    let mut crew: TestCrew = Crew::new(vec![agent]);
    crew.add_task(task1);
    crew.add_task(task2);
    drive(&mut crew, None);
    assert_eq!(crew.status, CrewStatus::Completed);
    let trace = &crew.execution_trace;
    let mut t1_completed_index = 0;
    let mut t2_started_index = 0;
    for (i, event) in trace.iter().enumerate() {
        if event.task_id == t1_id && event.event_type == "completed" {
            t1_completed_index = i;
        }
        if event.task_id == t2_id && event.event_type == "started" {
            t2_started_index = i;
        }
    }
    assert!(t1_completed_index < t2_started_index, "Task 1 must complete before Task 2 starts.");
}

#[test]
fn test_cancellation() {
    let agent: Agent<String, ()> = Agent::new("A1", "Worker", "Do work", "Worker");
    let task = Task::new("Long task", "taking long").assign_agent(agent.id);
    let mut crew: TestCrew = Crew::new(vec![agent]);
    crew.add_task(task);
    drive(&mut crew, Some(1));
    assert_eq!(crew.status, CrewStatus::Cancelled, "Crew should be cancelled.");
}

#[test]
fn dependencies_go_first_whatever_the_listing_order() {
    let agent: Agent<String, ()> = Agent::new("A1", "Worker", "Do work", "Worker");
    let task1 = Task::new("Task 1", "Output 1").assign_agent(agent.id);
    let mut task2 = Task::new("Task 2", "Output 2").assign_agent(agent.id);
    task2.dependencies.push(task1.id);
    let (t1, t2) = (task1.id, task2.id);
    let mut crew: TestCrew = Crew::new(vec![agent]);
    // listed dependent first: the dependency must still go first
    crew.add_task(task2);
    crew.add_task(task1);
    let order = drive(&mut crew, None);
    assert_eq!(order, vec![t1, t2]);
    assert_eq!(crew.status, CrewStatus::Completed);
    let mut t1_completed = None;
    let mut t2_started = None;
    for (i, event) in crew.execution_trace.iter().enumerate() {
        if event.task_id == t1 && event.event_type == "completed" {
            t1_completed = Some(i);
        }
        if event.task_id == t2 && event.event_type == "started" {
            t2_started = Some(i);
        }
    }
    assert!(t1_completed.unwrap() < t2_started.unwrap(), "Task 1 must complete before Task 2 starts.");
}

#[test]
fn cancelled_crew_stays_cancelled() {
    let agent: Agent<String, ()> = Agent::new("A1", "Worker", "Do work", "Worker");
    let first = Task::new("Long task", "taking long").assign_agent(agent.id);
    let mut second = Task::new("After", "later").assign_agent(agent.id);
    second.dependencies.push(first.id);
    let second_id = second.id;
    let mut crew: TestCrew = Crew::new(vec![agent]);
    crew.add_task(first);
    crew.add_task(second);
    let order = drive(&mut crew, Some(1));
    // cancelling does not stop the run: every task still runs, in order
    assert_eq!(order.len(), 2);
    assert_eq!(order[1], second_id);
    assert_eq!(crew.status, CrewStatus::Cancelled, "Crew should be cancelled.");
    assert_eq!(crew.task_map.get(&second_id).unwrap().status, TaskStatus::Completed);
    crew.finish_run();
    assert_eq!(crew.status, CrewStatus::Cancelled);
}

#[test]
fn agent_model_reply_becomes_the_output() {
    let agent: Agent<String, ()> = Agent::new("A", "R", "G", "B").add_llm("model says hi".to_string());
    let task = Task::new("talk", "a greeting").assign_agent(agent.id);
    let id = task.id;
    let mut crew: TestCrew = Crew::new(vec![agent]);
    crew.add_task(task);
    drive(&mut crew, None);
    assert_eq!(crew.task_map.get(&id).unwrap().output.as_deref(), Some("model says hi"));
}

#[test]
fn task_output_covers_each_reply() {
    assert_eq!(task_output(Some(Ok("text".to_string())), "d"), "text");
    assert_eq!(task_output(Some(Err("timeout".to_string())), "d"), "LLM Error: timeout");
    assert_eq!(task_output(None, "do it"), "Executed: do it");
}

#[test]
fn next_step_waits_on_a_missing_dependency() {
    let mut task = Task::new("blocked", "never");
    task.dependencies.push(42);
    let mut crew: TestCrew = Crew::new(vec![]);
    crew.add_task(task);
    let done = HashSet::new();
    assert!(matches!(crew.next_step(&crew.tasks, &done), RunStep::Wait));
    assert!(crew.ready_tasks(&crew.tasks, &done).is_empty());
    assert!(!crew.tasks_settled(&crew.tasks));
}

#[test]
fn empty_crew_finishes_at_once() {
    let crew: TestCrew = Crew::new(vec![]);
    assert!(matches!(crew.next_step(&crew.tasks, &HashSet::new()), RunStep::Finish));
}

#[test]
fn ready_tasks_skip_done_running_and_failed() {
    let a = Task::new("a", "a");
    let mut b = Task::new("b", "b");
    b.status = TaskStatus::Failed("boom".to_string());
    let c = Task::new("c", "c");
    let (ida, idc) = (a.id, c.id);
    let mut crew: TestCrew = Crew::new(vec![]);
    crew.add_task(a);
    crew.add_task(b);
    crew.add_task(c);
    let mut done = HashSet::new();
    assert_eq!(crew.ready_tasks(&crew.tasks, &done), vec![ida, idc]);
    done.insert(ida);
    assert_eq!(crew.ready_tasks(&crew.tasks, &done), vec![idc]);
    crew.begin_task(idc).unwrap();
    assert_eq!(crew.ready_tasks(&crew.tasks, &done), Vec::<u128>::new());
    assert!(matches!(crew.next_step(&crew.tasks, &done), RunStep::Wait));
}

#[test]
fn begin_task_finds_the_first_matching_agent() {
    let a1: Agent<String, ()> = Agent::new("A1", "R", "G", "B");
    let a2: Agent<String, ()> = Agent::new("A2", "R", "G", "B");
    let task = Task::new("t", "o").assign_agent(a2.id);
    let unassigned = Task::new("u", "o");
    let (id, uid) = (task.id, unassigned.id);
    let mut crew: TestCrew = Crew::new(vec![a1, a2]);
    crew.add_task(task);
    crew.add_task(unassigned);
    let launch = crew.begin_task(id).unwrap();
    assert_eq!(launch.agent_index, Some(1));
    assert_eq!(launch.description, "t");
    assert_eq!(crew.task_map.get(&id).unwrap().status, TaskStatus::Running);
    assert_eq!(crew.execution_trace.len(), 1);
    assert_eq!(crew.execution_trace[0].event_type, "started");
    assert_eq!(crew.begin_task(uid).unwrap().agent_index, None);
    assert!(crew.begin_task(7).is_none());
    assert_eq!(crew.execution_trace.len(), 2);
}

#[test]
fn complete_task_records_the_output() {
    let task = Task::new("t", "o");
    let id = task.id;
    let mut crew: TestCrew = Crew::new(vec![]);
    crew.add_task(task);
    crew.complete_task(id, "result".to_string());
    let task = crew.task_map.get(&id).unwrap();
    assert_eq!(task.status, TaskStatus::Completed);
    assert_eq!(task.output.as_deref(), Some("result"));
    let event = crew.execution_trace.last().unwrap();
    assert_eq!(event.event_type, "completed");
    assert_eq!(event.data.as_deref(), Some("result"));
    crew.complete_task(12345, "ignored".to_string());
    assert_eq!(crew.execution_trace.len(), 1);
}

#[test]
fn tasks_added_during_a_run_are_not_part_of_it() {
    let first = Task::new("first", "o");
    let mut crew: TestCrew = Crew::new(vec![]);
    crew.add_task(first);
    let run_tasks = crew.tasks.clone();
    let mut done = HashSet::new();
    let ids = match crew.next_step(&run_tasks, &done) {
        RunStep::Launch(ids) => ids,
        _ => panic!("the first task should be ready"),
    };
    for id in ids {
        crew.begin_task(id).unwrap();
        crew.complete_task(id, "ok".to_string());
        done.insert(id);
    }
    let late = Task::new("late", "o");
    let late_id = late.id;
    crew.add_task(late);
    assert!(matches!(crew.next_step(&run_tasks, &done), RunStep::Finish));
    assert_eq!(crew.task_map.get(&late_id).unwrap().status, TaskStatus::Pending);
}

#[test]
fn a_run_leaves_the_status_alone_until_it_finishes() {
    let task = Task::new("t", "o");
    let mut crew: TestCrew = Crew::new(vec![]);
    crew.add_task(task);
    let run_tasks = crew.tasks.clone();
    let done = HashSet::new();
    assert!(matches!(crew.next_step(&run_tasks, &done), RunStep::Launch(_)));
    assert_eq!(crew.status, CrewStatus::Idle);
    crew.finish_run();
    assert_eq!(crew.status, CrewStatus::Completed);
}
