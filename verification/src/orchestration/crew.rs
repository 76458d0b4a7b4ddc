//! Crews: agents, the tasks they are given, the trace of what happened,
//! messages between agents and a shared blackboard.
use std::collections::HashMap;
use vstd::hash_map::StringHashMap;
use vstd::prelude::*;
use vstd::string::*;

use crate::ids::{new_id, now};
use crate::orchestration::agent::Agent;
use crate::orchestration::collaboration::ConsensusSession;
use crate::orchestration::task::Task;

verus! {

broadcast use vstd::std_specs::hash::group_hash_axioms;

/// A point in time in UTC: whole seconds since the Unix epoch and the
/// nanoseconds past that second.
#[derive(Debug, Clone, Copy, PartialEq, Eq)]
pub struct Timestamp {
    pub secs: i64,
    pub nanos: u32,
}

/// Something that happened to a task while a crew ran, such as `started`
/// or `completed`, and when.
#[derive(Debug, Clone)]
pub struct ExecutionEvent {
    pub timestamp: Timestamp,
    pub task_id: u128,
    pub event_type: String,
    pub data: Option<String>,
}

/// Where a crew is in its life.
#[derive(Debug, Clone, Copy, PartialEq, Eq, Structural)]
pub enum CrewStatus {
    Idle,
    Running,
    Completed,
    Failed,
    Cancelled,
}

/// A message from one agent to another, and when it was sent.
#[derive(Debug, Clone)]
pub struct Message {
    pub from: u128,
    pub to: u128,
    pub content: String,
    pub timestamp: Timestamp,
}

/// A group of agents (with models of type `L` and tools of type `T`) that
/// work through a list of tasks, optionally sharing a memory of type `M`.
pub struct Crew<L, T, M> {
    pub id: u128,
    pub agents: Vec<Agent<L, T>>,
    pub tasks: Vec<u128>,
    pub task_map: HashMap<u128, Task>,
    pub memory: Option<M>,
    pub execution_trace: Vec<ExecutionEvent>,
    pub status: CrewStatus,
    pub messages: Vec<Message>,
    pub blackboard: StringHashMap<String>,
    pub consensus_sessions: HashMap<u128, ConsensusSession>,
}

impl<L, T, M> Crew<L, T, M> {
    /// Every listed task is known by its id, and every known task is filed
    /// under its own id.
    pub open spec fn tasks_registered(&self) -> bool {
        &&& forall|i: int|
            0 <= i < self.tasks@.len() ==> self.task_map@.contains_key(#[trigger] self.tasks@[i])
        &&& forall|k: u128| #[trigger] self.task_map@.contains_key(k) ==> self.task_map@[k].id == k
    }

    /// An idle crew of `agents`, with a fresh id and nothing else yet.
    pub fn new(agents: Vec<Agent<L, T>>) -> (crew: Self)
        ensures
            crew.agents == agents,
            crew.tasks@.len() == 0,
            crew.task_map@ == Map::<u128, Task>::empty(),
            crew.memory is None,
            crew.execution_trace@.len() == 0,
            crew.status == CrewStatus::Idle,
            crew.messages@.len() == 0,
            crew.blackboard@ == Map::<Seq<char>, String>::empty(),
            crew.consensus_sessions@ == Map::<u128, ConsensusSession>::empty(),
            crew.tasks_registered(),
    {
        Crew {
            id: new_id(),
            agents,
            tasks: Vec::new(),
            task_map: HashMap::new(),
            memory: None,
            execution_trace: Vec::new(),
            status: CrewStatus::Idle,
            messages: Vec::new(),
            blackboard: StringHashMap::new(),
            consensus_sessions: HashMap::new(),
        }
    }

    /// The same crew, sharing the memory `memory`.
    pub fn with_memory(self, memory: M) -> (crew: Self)
        ensures
            crew == (Crew { memory: Some(memory), ..self }),
    {
        let mut crew = self;
        crew.memory = Some(memory);
        crew
    }

    /// Files `task` under its id (replacing a task with the same id) and
    /// lists the id after the others.
    pub fn add_task(&mut self, task: Task)
        ensures
            final(self).tasks@ == old(self).tasks@.push(task.id),
            final(self).task_map@ == old(self).task_map@.insert(task.id, task),
            *final(self) == (Crew {
                tasks: final(self).tasks,
                task_map: final(self).task_map,
                ..*old(self)
            }),
            old(self).tasks_registered() ==> final(self).tasks_registered(),
    {
        let id = task.id;
        self.task_map.insert(id, task);
        self.tasks.push(id);
        proof {
            if old(self).tasks_registered() {
                assert forall|i: int| 0 <= i < self.tasks@.len() implies self.task_map@.contains_key(
                    #[trigger] self.tasks@[i],
                ) by {
                    if i < self.tasks@.len() - 1 {
                        assert(self.tasks@[i] == old(self).tasks@[i]);
                    }
                }
            }
        }
    }

    /// Appends a message from `from` to `to`, stamped with the current time.
    pub fn send_message(&mut self, from: u128, to: u128, content: &str)
        ensures
            final(self).messages@.len() == old(self).messages@.len() + 1,
            final(self).messages@.drop_last() == old(self).messages@,
            final(self).messages@.last().from == from,
            final(self).messages@.last().to == to,
            final(self).messages@.last().content@ == content@,
            *final(self) == (Crew { messages: final(self).messages, ..*old(self) }),
    {
        let message = Message { from, to, content: content.to_string(), timestamp: now() };
        self.messages.push(message);
        assert(self.messages@.drop_last() =~= old(self).messages@);
    }

    /// Writes `value` under `key` on the blackboard, replacing what was there.
    pub fn update_blackboard(&mut self, key: &str, value: &str)
        ensures
            final(self).blackboard@.dom() == old(self).blackboard@.dom().insert(key@),
            final(self).blackboard@[key@]@ == value@,
            forall|k: Seq<char>|
                k != key@ && #[trigger] old(self).blackboard@.contains_key(k)
                    ==> final(self).blackboard@[k] == old(self).blackboard@[k],
            *final(self) == (Crew { blackboard: final(self).blackboard, ..*old(self) }),
    {
        self.blackboard.insert(key.to_string(), value.to_string());
    }
}

} // verus!
