//! A table of tasks kept in memory, shared between threads.
use dashmap::DashMap;
use std::sync::Arc;
use vstd::prelude::*;

use crate::orchestration::task::Task;

verus! {

#[verifier::external_type_specification]
#[verifier::external_body]
#[verifier::reject_recursive_types(K)]
#[verifier::reject_recursive_types(V)]
#[verifier::reject_recursive_types(S)]
pub struct ExDashMap<K, V, S>(DashMap<K, V, S>);

/// A concurrent table of tasks by id.
pub type TaskTable = DashMap<u128, Task>;

/// What a task table holds, by task id.
pub uninterp spec fn table_contents(table: TaskTable) -> Map<u128, Task>;

/// Calls `dashmap::DashMap::new`, which makes an empty map.
#[verifier::external_body]
fn new_task_table() -> (table: TaskTable)
    ensures
        table_contents(table) =~= Map::empty(),
{
    DashMap::new()
}

/// Tasks kept in memory by id.
pub struct InMemoryMemory {
    tasks: Arc<TaskTable>,
}

impl InMemoryMemory {
    /// The tasks held.
    pub closed spec fn contents(&self) -> Map<u128, Task> {
        table_contents(*self.tasks)
    }

    /// An empty table.
    pub fn new() -> (memory: Self)
        ensures
            memory.contents() == Map::<u128, Task>::empty(),
    {
        InMemoryMemory { tasks: Arc::new(new_task_table()) }
    }
}

} // verus!
