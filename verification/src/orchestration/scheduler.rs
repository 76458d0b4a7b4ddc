//! The decisions of the dependency-respecting scheduler. A run goes in
//! waves: every pending task whose dependencies have all completed is
//! launched, the wave is awaited, and the next wave is chosen, until every
//! task has settled. The crew's status does not steer the run: a crew
//! cancelled meanwhile still runs its tasks, and only keeps its `Cancelled`
//! status at the end. Running the work (waiting on
//! models, sleeping) is left to the caller, which asks `next_step` what to
//! do and reports back through `begin_task` and `complete_task`.
use std::collections::HashSet;
use vstd::prelude::*;
use vstd::string::*;

use crate::ids::now;
use crate::orchestration::agent::Agent;
use crate::orchestration::crew::{Crew, CrewStatus, ExecutionEvent};
use crate::orchestration::task::{Task, TaskStatus};

verus! {

broadcast use {vstd::std_specs::hash::group_hash_axioms, vstd::string::group_string_axioms};

/// The label of the event recorded when a task starts.
pub open spec fn started_label() -> Seq<char> {
    seq!['s', 't', 'a', 'r', 't', 'e', 'd']
}

/// The label of the event recorded when a task completes.
pub open spec fn completed_label() -> Seq<char> {
    seq!['c', 'o', 'm', 'p', 'l', 'e', 't', 'e', 'd']
}

/// Every dependency of `task` is in `done`.
pub open spec fn dependencies_done(task: Task, done: Set<u128>) -> bool {
    forall|j: int| 0 <= j < task.dependencies@.len() ==> done.contains(#[trigger] task.dependencies@[j])
}

/// The task `id` may start now: it has not been run in this run, it is
/// known, it is pending, and all its dependencies are done.
pub open spec fn is_ready(tasks: Map<u128, Task>, id: u128, done: Set<u128>) -> bool {
    &&& !done.contains(id)
    &&& tasks.contains_key(id)
    &&& tasks[id].status is Pending
    &&& dependencies_done(tasks[id], done)
}

/// The ready tasks among `ids`, in the order of `ids`.
pub open spec fn ready_among(ids: Seq<u128>, tasks: Map<u128, Task>, done: Set<u128>) -> Seq<u128>
    decreases ids.len(),
{
    if ids.len() == 0 {
        Seq::empty()
    } else {
        let before = ready_among(ids.drop_last(), tasks, done);
        if is_ready(tasks, ids.last(), done) {
            before.push(ids.last())
        } else {
            before
        }
    }
}

/// The task `id` is known and has finished, well or badly.
pub open spec fn is_settled(tasks: Map<u128, Task>, id: u128) -> bool {
    &&& tasks.contains_key(id)
    &&& (tasks[id].status is Completed || tasks[id].status is Failed)
}

/// Every task in `ids` has settled.
pub open spec fn all_settled(ids: Seq<u128>, tasks: Map<u128, Task>) -> bool {
    forall|i: int| 0 <= i < ids.len() ==> is_settled(tasks, #[trigger] ids[i])
}

/// The crew knows every task of `ids`, and each has status `Completed` or
/// `Failed`.
pub open spec fn finished_or_failed(ids: Seq<u128>, tasks: Map<u128, Task>) -> bool {
    forall|i: int|
        0 <= i < ids.len() ==> tasks.contains_key(#[trigger] ids[i]) && (
        tasks[ids[i]].status is Completed || tasks[ids[i]].status is Failed)
}

/// A run ends once each of its tasks has completed or failed: then every
/// task of the run counts as settled and none is ready, whatever is done,
/// so `next_step` answers `Finish`. A failed task does not hold the run up.
pub proof fn lemma_finished_or_failed_run_ends(
    run_tasks: Seq<u128>,
    tasks: Map<u128, Task>,
    done: Set<u128>,
)
    requires
        finished_or_failed(run_tasks, tasks),
    ensures
        all_settled(run_tasks, tasks),
        ready_among(run_tasks, tasks, done).len() == 0,
{
    if ready_among(run_tasks, tasks, done).len() > 0 {
        lemma_ready_among_ready(run_tasks, tasks, done, 0);
        let id = ready_among(run_tasks, tasks, done)[0];
        let j = choose|j: int| 0 <= j < run_tasks.len() && run_tasks[j] == id;
        assert(tasks[run_tasks[j]].status is Pending);
    }
}

/// A task of the run that the crew does not know, or that is pending or
/// running, keeps the run from settling.
pub proof fn lemma_open_task_unsettled(run_tasks: Seq<u128>, tasks: Map<u128, Task>, i: int)
    requires
        0 <= i < run_tasks.len(),
        !tasks.contains_key(run_tasks[i]) || tasks[run_tasks[i]].status is Pending
            || tasks[run_tasks[i]].status is Running,
    ensures
        !all_settled(run_tasks, tasks),
{
    assert(!is_settled(tasks, run_tasks[i]));
}

/// A `completed` event for task `id` stands among the first `upto` events.
pub open spec fn completed_before(trace: Seq<ExecutionEvent>, upto: int, id: u128) -> bool {
    exists|j: int|
        0 <= j < upto && #[trigger] trace[j].task_id == id && trace[j].event_type@
            == completed_label()
}

/// What the caller is to do next in a run.
pub enum RunStep {
    /// Run these tasks, then ask again.
    Launch(Vec<u128>),
    /// Every task has settled: the run is over.
    Finish,
    /// Nothing can start yet, though not every task has settled: wait and ask again.
    Wait,
}

/// What the caller needs to run a task that has been started.
pub struct TaskLaunch {
    pub description: String,
    /// The position in the crew of the first agent carrying the task's
    /// assigned id, if the task is assigned and such an agent exists.
    pub agent_index: Option<usize>,
}

/// The output a task gets: the model's reply, the model's error prefixed
/// with `LLM Error: `, or, where the agent has no model, `Executed: `
/// followed by the task's description.
pub open spec fn output_text(reply: Option<Result<String, String>>, description: Seq<char>) -> Seq<
    char,
> {
    match reply {
        Some(Ok(text)) => text@,
        Some(Err(error)) => "LLM Error: "@ + error@,
        None => "Executed: "@ + description,
    }
}

/// The output recorded for a task, from what its model replied (`None`
/// where the agent has no model).
pub fn task_output(reply: Option<Result<String, String>>, description: &str) -> (output: String)
    ensures
        output@ == output_text(reply, description@),
{
    match reply {
        Some(Ok(text)) => text,
        Some(Err(error)) => {
            let mut output = "LLM Error: ".to_string();
            output.append(error.as_str());
            output
        },
        None => {
            let mut output = "Executed: ".to_string();
            output.append(description);
            output
        },
    }
}

/// Whether every dependency of `task` is in `done`.
fn dependencies_done_exec(task: &Task, done: &HashSet<u128>) -> (b: bool)
    ensures
        b == dependencies_done(*task, done@),
{
    let mut j: usize = 0;
    while j < task.dependencies.len()
        invariant
            j <= task.dependencies@.len(),
            forall|k: int| 0 <= k < j ==> done@.contains(#[trigger] task.dependencies@[k]),
        decreases task.dependencies.len() - j,
    {
        if !done.contains(&task.dependencies[j]) {
            return false;
        }
        j = j + 1;
    }
    true
}

impl<L, T, M> Crew<L, T, M> {
    /// Every `started` event comes after `completed` events of all the
    /// dependencies of its task.
    pub open spec fn starts_after_dependencies(&self) -> bool {
        let trace = self.execution_trace@;
        forall|i: int|
            #![trigger trace[i]]
            0 <= i < trace.len() && trace[i].event_type@ == started_label()
                && self.task_map@.contains_key(trace[i].task_id) ==> forall|j: int|
                0 <= j < self.task_map@[trace[i].task_id].dependencies@.len()
                    ==> completed_before(
                    trace,
                    i,
                    #[trigger] self.task_map@[trace[i].task_id].dependencies@[j],
                )
    }

    /// Every task in `done` has a `completed` event in the trace.
    pub open spec fn records_done(&self, done: Set<u128>) -> bool {
        forall|d: u128|
            #[trigger] done.contains(d) ==> completed_before(
                self.execution_trace@,
                self.execution_trace@.len() as int,
                d,
            )
    }

    /// The invariant of a run in which the tasks in `done` have completed.
    pub open spec fn dependency_order(&self, done: Set<u128>) -> bool {
        &&& self.starts_after_dependencies()
        &&& self.records_done(done)
    }

    /// `new` is `old` after the task `id` started: it is running, one
    /// `started` event is appended, and nothing else changed.
    pub open spec fn started(old: Self, new: Self, id: u128) -> bool {
        let n = old.execution_trace@.len();
        &&& old.task_map@.contains_key(id)
        &&& new.task_map@ == old.task_map@.insert(
            id,
            Task { status: TaskStatus::Running, ..old.task_map@[id] },
        )
        &&& new.execution_trace@.len() == n + 1
        &&& new.execution_trace@.take(n as int) == old.execution_trace@
        &&& new.execution_trace@[n as int].task_id == id
        &&& new.execution_trace@[n as int].event_type@ == started_label()
        &&& new.execution_trace@[n as int].data is None
        &&& new == (Crew { task_map: new.task_map, execution_trace: new.execution_trace, ..old })
    }

    /// `new` is `old` after the task `id` completed with `output`: it is
    /// completed and holds the output, one `completed` event carrying the
    /// output is appended, and nothing else changed.
    pub open spec fn finished(old: Self, new: Self, id: u128, output: Seq<char>) -> bool {
        let n = old.execution_trace@.len();
        &&& old.task_map@.contains_key(id)
        &&& new.task_map@.contains_key(id)
        &&& new.task_map@[id].status is Completed
        &&& new.task_map@[id].output matches Some(text) && text@ == output
        &&& new.task_map@[id] == (Task {
            status: new.task_map@[id].status,
            output: new.task_map@[id].output,
            ..old.task_map@[id]
        })
        &&& new.task_map@ == old.task_map@.insert(id, new.task_map@[id])
        &&& new.execution_trace@.len() == n + 1
        &&& new.execution_trace@.take(n as int) == old.execution_trace@
        &&& new.execution_trace@[n as int].task_id == id
        &&& new.execution_trace@[n as int].event_type@ == completed_label()
        &&& new.execution_trace@[n as int].data matches Some(text) && text@ == output
        &&& new == (Crew { task_map: new.task_map, execution_trace: new.execution_trace, ..old })
    }

    /// The ids among `run_tasks` (the tasks of the run, listed when it
    /// began) of the tasks that may start now, in that order.
    pub fn ready_tasks(&self, run_tasks: &Vec<u128>, done: &HashSet<u128>) -> (ready: Vec<u128>)
        ensures
            ready@ == ready_among(run_tasks@, self.task_map@, done@),
    {
        let mut ready: Vec<u128> = Vec::new();
        let mut i: usize = 0;
        while i < run_tasks.len()
            invariant
                i <= run_tasks@.len(),
                ready@ == ready_among(run_tasks@.take(i as int), self.task_map@, done@),
            decreases run_tasks.len() - i,
        {
            let id = run_tasks[i];
            assert(run_tasks@.take(i + 1).drop_last() =~= run_tasks@.take(i as int));
            assert(run_tasks@.take(i + 1).last() == id);
            if !done.contains(&id) {
                match self.task_map.get(&id) {
                    Some(task) => {
                        if matches!(task.status, TaskStatus::Pending) && dependencies_done_exec(
                            task,
                            done,
                        ) {
                            ready.push(id);
                        }
                    },
                    None => {},
                }
            }
            i = i + 1;
        }
        assert(run_tasks@.take(run_tasks@.len() as int) =~= run_tasks@);
        ready
    }

    /// Whether every task of `run_tasks` has settled.
    pub fn tasks_settled(&self, run_tasks: &Vec<u128>) -> (settled: bool)
        ensures
            settled == all_settled(run_tasks@, self.task_map@),
    {
        let mut i: usize = 0;
        while i < run_tasks.len()
            invariant
                i <= run_tasks@.len(),
                forall|k: int| 0 <= k < i ==> is_settled(self.task_map@, #[trigger] run_tasks@[k]),
            decreases run_tasks.len() - i,
        {
            match self.task_map.get(&run_tasks[i]) {
                Some(task) => {
                    match task.status {
                        TaskStatus::Completed => {},
                        TaskStatus::Failed(_) => {},
                        _ => {
                            return false;
                        },
                    }
                },
                None => {
                    return false;
                },
            }
            i = i + 1;
        }
        true
    }

    /// What to do next in a run of `run_tasks` (the crew's task list as it
    /// stood when the run began; tasks added later are not part of the
    /// run), given the tasks `done` in this run so far: launch the ready
    /// tasks, finish once every task of the run has settled, or wait. The
    /// crew's status plays no part.
    pub fn next_step(&self, run_tasks: &Vec<u128>, done: &HashSet<u128>) -> (step: RunStep)
        ensures
            match step {
                RunStep::Launch(ids) => {
                    &&& ids@ == ready_among(run_tasks@, self.task_map@, done@)
                    &&& ids@.len() > 0
                },
                RunStep::Finish => {
                    &&& ready_among(run_tasks@, self.task_map@, done@).len() == 0
                    &&& all_settled(run_tasks@, self.task_map@)
                },
                RunStep::Wait => {
                    &&& ready_among(run_tasks@, self.task_map@, done@).len() == 0
                    &&& !all_settled(run_tasks@, self.task_map@)
                },
            },
            finished_or_failed(run_tasks@, self.task_map@) ==> step is Finish,
    {
        proof {
            if finished_or_failed(run_tasks@, self.task_map@) {
                lemma_finished_or_failed_run_ends(run_tasks@, self.task_map@, done@);
            }
        }
        let ready = self.ready_tasks(run_tasks, done);
        if ready.len() > 0 {
            RunStep::Launch(ready)
        } else if self.tasks_settled(run_tasks) {
            RunStep::Finish
        } else {
            RunStep::Wait
        }
    }

    /// Marks the crew as completed at the end of a run, unless it has been
    /// cancelled.
    pub fn finish_run(&mut self)
        ensures
            final(self).status == if old(self).status == CrewStatus::Cancelled {
                CrewStatus::Cancelled
            } else {
                CrewStatus::Completed
            },
            *final(self) == (Crew { status: final(self).status, ..*old(self) }),
    {
        if self.status != CrewStatus::Cancelled {
            self.status = CrewStatus::Completed;
        }
    }

    /// Starts the task `id`: marks it running, records a `started` event,
    /// and tells the caller the description and the agent to run it with.
    /// Does nothing and returns `None` when the crew has no such task.
    pub fn begin_task(&mut self, id: u128) -> (launch: Option<TaskLaunch>)
        ensures
            match launch {
                Some(l) => {
                    let task = old(self).task_map@[id];
                    &&& Self::started(*old(self), *final(self), id)
                    &&& l.description@ == task.description@
                    &&& match task.assigned_agent_id {
                        None => l.agent_index is None,
                        Some(agent_id) => match l.agent_index {
                            Some(k) => {
                                &&& k < old(self).agents@.len()
                                &&& old(self).agents@[k as int].id == agent_id
                                &&& forall|j: int|
                                    0 <= j < k ==> #[trigger] old(self).agents@[j].id != agent_id
                            },
                            None => forall|j: int|
                                0 <= j < old(self).agents@.len()
                                    ==> #[trigger] old(self).agents@[j].id != agent_id,
                        },
                    }
                },
                None => {
                    &&& !old(self).task_map@.contains_key(id)
                    &&& *final(self) == *old(self)
                },
            },
    {
        if !self.task_map.contains_key(&id) {
            return None;
        }
        match self.task_map.remove(&id) {
            None => None,
            Some(task) => {
                let ghost before = task;
                let agent_index = match task.assigned_agent_id {
                    None => None,
                    Some(agent_id) => self.agent_position(agent_id),
                };
                let description = task.description.clone();
                let mut task = task;
                task.status = TaskStatus::Running;
                self.task_map.insert(id, task);
                let label = "started".to_string();
                proof {
                    reveal_strlit("started");
                    assert(label@ =~= started_label());
                }
                let event = ExecutionEvent {
                    timestamp: now(),
                    task_id: id,
                    event_type: label,
                    data: None,
                };
                self.execution_trace.push(event);
                proof {
                    assert(self.task_map@ =~= old(self).task_map@.insert(
                        id,
                        Task { status: TaskStatus::Running, ..before },
                    ));
                    assert(self.execution_trace@.take(old(self).execution_trace@.len() as int)
                        =~= old(self).execution_trace@);
                }
                Some(TaskLaunch { description, agent_index })
            },
        }
    }

    /// The position of the first agent whose id is `agent_id`.
    fn agent_position(&self, agent_id: u128) -> (k: Option<usize>)
        ensures
            match k {
                Some(k) => {
                    &&& k < self.agents@.len()
                    &&& self.agents@[k as int].id == agent_id
                    &&& forall|j: int| 0 <= j < k ==> #[trigger] self.agents@[j].id != agent_id
                },
                None => forall|j: int|
                    0 <= j < self.agents@.len() ==> #[trigger] self.agents@[j].id != agent_id,
            },
    {
        let mut k: usize = 0;
        while k < self.agents.len()
            invariant
                k <= self.agents@.len(),
                forall|j: int| 0 <= j < k ==> #[trigger] self.agents@[j].id != agent_id,
            decreases self.agents.len() - k,
        {
            if self.agents[k].id == agent_id {
                return Some(k);
            }
            k = k + 1;
        }
        None
    }

    /// Completes the task `id` with `output`: marks it completed, stores the
    /// output and records a `completed` event carrying it. Does nothing when
    /// the crew has no such task.
    pub fn complete_task(&mut self, id: u128, output: String)
        ensures
            old(self).task_map@.contains_key(id) ==> Self::finished(
                *old(self),
                *final(self),
                id,
                output@,
            ),
            !old(self).task_map@.contains_key(id) ==> *final(self) == *old(self),
    {
        if !self.task_map.contains_key(&id) {
            return;
        }
        match self.task_map.remove(&id) {
            None => {},
            Some(task) => {
                let ghost before = task;
                let recorded = output.clone();
                let mut task = task;
                task.status = TaskStatus::Completed;
                task.output = Some(output);
                let ghost after = task;
                self.task_map.insert(id, task);
                let label = "completed".to_string();
                proof {
                    reveal_strlit("completed");
                    assert(label@ =~= completed_label());
                }
                let event = ExecutionEvent {
                    timestamp: now(),
                    task_id: id,
                    event_type: label,
                    data: Some(recorded),
                };
                self.execution_trace.push(event);
                proof {
                    assert(self.task_map@ =~= old(self).task_map@.insert(id, after));
                    assert(self.execution_trace@.take(old(self).execution_trace@.len() as int)
                        =~= old(self).execution_trace@);
                }
            },
        }
    }

    /// A crew with an empty trace satisfies the run invariant with nothing
    /// done yet.
    pub proof fn lemma_fresh_run_order(crew: Self)
        requires
            crew.execution_trace@.len() == 0,
        ensures
            crew.dependency_order(Set::empty()),
    {
    }

    /// Under the run invariant, every dependency of every ready task has a
    /// `completed` event already: what the scheduler launches never
    /// overtakes what it waits for.
    pub proof fn lemma_ready_dependencies_completed(
        crew: Self,
        run_tasks: Seq<u128>,
        done: Set<u128>,
        k: int,
    )
        requires
            crew.records_done(done),
            0 <= k < ready_among(run_tasks, crew.task_map@, done).len(),
        ensures
            is_ready(crew.task_map@, ready_among(run_tasks, crew.task_map@, done)[k], done),
            forall|j: int|
                0 <= j < crew.task_map@[ready_among(
                    run_tasks,
                    crew.task_map@,
                    done,
                )[k]].dependencies@.len() ==> completed_before(
                    crew.execution_trace@,
                    crew.execution_trace@.len() as int,
                    #[trigger] crew.task_map@[ready_among(
                        run_tasks,
                        crew.task_map@,
                        done,
                    )[k]].dependencies@[j],
                ),
    {
        lemma_ready_among_ready(run_tasks, crew.task_map@, done, k);
    }

    /// A task that has started, or has completed, is not ready again: no
    /// task is launched twice in a run.
    pub proof fn lemma_started_or_finished_not_ready(
        old: Self,
        new: Self,
        id: u128,
        output: Seq<char>,
        done: Set<u128>,
    )
        requires
            Self::started(old, new, id) || Self::finished(old, new, id, output),
        ensures
            !is_ready(new.task_map@, id, done),
    {
    }

    /// A start or a completion of a task of the wave `wave` keeps the tasks
    /// as `wave_frame` allows: the crew's task list and every task outside
    /// the wave stay as they were, and no dependency changes. Any
    /// interleaving of the wave's starts and completions is a chain of such
    /// steps.
    pub proof fn lemma_wave_step(
        before: Map<u128, Task>,
        cur: Self,
        next: Self,
        id: u128,
        output: Seq<char>,
        wave: Set<u128>,
    )
        requires
            wave_frame(before, cur.task_map@, wave),
            wave.contains(id),
            Self::started(cur, next, id) || Self::finished(cur, next, id, output),
        ensures
            wave_frame(before, next.task_map@, wave),
            next.tasks == cur.tasks,
    {
        assert(next.task_map@.dom() =~= cur.task_map@.dom());
    }

    /// `started_in(trace, id)`, the record of a run in which the tasks in
    /// `done` have completed: the dependency order holds, every task in
    /// `done` has started, no task has started twice, and no task that has
    /// started is pending again.
    pub open spec fn run_record(&self, done: Set<u128>) -> bool {
        let trace = self.execution_trace@;
        &&& self.dependency_order(done)
        &&& forall|d: u128| #[trigger] done.contains(d) ==> started_in(trace, d)
        &&& forall|a: int, b: int|
            0 <= a < b < trace.len() && trace[a].event_type@ == started_label()
                && trace[b].event_type@ == started_label() ==> #[trigger] trace[a].task_id
                != #[trigger] trace[b].task_id
        &&& forall|k: int|
            0 <= k < trace.len() && trace[k].event_type@ == started_label()
                && self.task_map@.contains_key(#[trigger] trace[k].task_id) ==> !(
            self.task_map@[trace[k].task_id].status is Pending)
    }

    /// A crew with an empty trace holds the record of a run in which
    /// nothing is done yet.
    pub proof fn lemma_fresh_run_record(crew: Self)
        requires
            crew.execution_trace@.len() == 0,
        ensures
            crew.run_record(Set::empty()),
    {
    }

    /// Starting a ready task keeps the record of the run.
    pub proof fn lemma_start_keeps_record(old: Self, new: Self, id: u128, done: Set<u128>)
        requires
            old.run_record(done),
            is_ready(old.task_map@, id, done),
            Self::started(old, new, id),
        ensures
            new.run_record(done),
            started_in(new.execution_trace@, id),
    {
        Self::lemma_start_keeps_order(old, new, id, done);
        let n = old.execution_trace@.len() as int;
        let ot = old.execution_trace@;
        let nt = new.execution_trace@;
        assert forall|i: int| 0 <= i < n implies #[trigger] nt[i] == ot[i] by {
            assert(nt.take(n)[i] == nt[i]);
        }
        assert forall|d: u128| #[trigger] done.contains(d) implies started_in(nt, d) by {
            let k = choose|k: int|
                0 <= k < ot.len() && #[trigger] ot[k].task_id == d && ot[k].event_type@
                    == started_label();
            assert(nt[k] == ot[k]);
        }
        assert forall|a: int, b: int|
            0 <= a < b < nt.len() && nt[a].event_type@ == started_label() && nt[b].event_type@
                == started_label() implies #[trigger] nt[a].task_id != #[trigger] nt[b].task_id by {
            assert(nt[a] == ot[a]);
            if b < n {
                assert(nt[b] == ot[b]);
            } else {
                // an earlier start of `id` would have left it not pending
                assert(nt[b].task_id == id);
                if ot[a].task_id == id {
                    assert(old.task_map@.contains_key(ot[a].task_id));
                }
            }
        }
        assert forall|k: int|
            0 <= k < nt.len() && nt[k].event_type@ == started_label()
                && new.task_map@.contains_key(#[trigger] nt[k].task_id) implies !(
            new.task_map@[nt[k].task_id].status is Pending) by {
            if k < n {
                assert(nt[k] == ot[k]);
                if nt[k].task_id != id {
                    assert(new.task_map@[nt[k].task_id] == old.task_map@[nt[k].task_id]);
                }
            }
        }
        assert(nt[n].task_id == id && nt[n].event_type@ == started_label());
    }

    /// Completing a task that has started keeps the record of the run,
    /// with that task now done.
    pub proof fn lemma_finish_keeps_record(
        old: Self,
        new: Self,
        id: u128,
        output: Seq<char>,
        done: Set<u128>,
    )
        requires
            old.run_record(done),
            started_in(old.execution_trace@, id),
            Self::finished(old, new, id, output),
        ensures
            new.run_record(done.insert(id)),
    {
        Self::lemma_finish_keeps_order(old, new, id, output, done);
        let n = old.execution_trace@.len() as int;
        let ot = old.execution_trace@;
        let nt = new.execution_trace@;
        assert forall|i: int| 0 <= i < n implies #[trigger] nt[i] == ot[i] by {
            assert(nt.take(n)[i] == nt[i]);
        }
        assert(nt[n].event_type@ != started_label()) by {
            assert(completed_label().len() != started_label().len());
        }
        assert forall|d: u128| #[trigger] done.insert(id).contains(d) implies started_in(nt, d) by {
            let k = choose|k: int|
                0 <= k < ot.len() && #[trigger] ot[k].task_id == d && ot[k].event_type@
                    == started_label();
            assert(nt[k] == ot[k]);
        }
        assert forall|a: int, b: int|
            0 <= a < b < nt.len() && nt[a].event_type@ == started_label() && nt[b].event_type@
                == started_label() implies #[trigger] nt[a].task_id != #[trigger] nt[b].task_id by {
            assert(b < n);
            assert(nt[a] == ot[a]);
            assert(nt[b] == ot[b]);
        }
        assert forall|k: int|
            0 <= k < nt.len() && nt[k].event_type@ == started_label()
                && new.task_map@.contains_key(#[trigger] nt[k].task_id) implies !(
            new.task_map@[nt[k].task_id].status is Pending) by {
            assert(k < n);
            assert(nt[k] == ot[k]);
            if nt[k].task_id != id {
                assert(new.task_map@[nt[k].task_id] == old.task_map@[nt[k].task_id]);
            }
        }
    }

    /// When a run of `run_tasks` in the acyclic state has settled every
    /// task, each of its tasks has started exactly once, and after
    /// `completed` events of all its dependencies: each task was handed out
    /// (`begin_task` gives its description, the prompt of its model) once,
    /// in dependency order.
    pub proof fn lemma_settled_run_started_each_once(
        crew: Self,
        run_tasks: Seq<u128>,
        done: Set<u128>,
        rank: spec_fn(u128) -> nat,
        i: int,
    )
        requires
            crew.run_record(done),
            acyclic_run_state(run_tasks, crew.task_map@, done, rank),
            all_settled(run_tasks, crew.task_map@),
            0 <= i < run_tasks.len(),
        ensures
            exists|k: int|
                #![trigger crew.execution_trace@[k]]
                0 <= k < crew.execution_trace@.len() && crew.execution_trace@[k].task_id
                    == run_tasks[i] && crew.execution_trace@[k].event_type@ == started_label()
                    && forall|j: int|
                    0 <= j < crew.task_map@[run_tasks[i]].dependencies@.len() ==> completed_before(
                        crew.execution_trace@,
                        k,
                        #[trigger] crew.task_map@[run_tasks[i]].dependencies@[j],
                    ),
            forall|a: int, b: int|
                0 <= a < crew.execution_trace@.len() && 0 <= b < crew.execution_trace@.len()
                    && #[trigger] crew.execution_trace@[a].task_id == run_tasks[i]
                    && #[trigger] crew.execution_trace@[b].task_id == run_tasks[i]
                    && crew.execution_trace@[a].event_type@ == started_label()
                    && crew.execution_trace@[b].event_type@ == started_label() ==> a == b,
    {
        let t = run_tasks[i];
        let trace = crew.execution_trace@;
        assert(is_settled(crew.task_map@, t));
        assert(done.contains(t)) by {
            if !done.contains(run_tasks[i]) {
                assert(crew.task_map@[run_tasks[i]].status is Pending);
            }
        }
        let k = choose|k: int|
            0 <= k < trace.len() && #[trigger] trace[k].task_id == t && trace[k].event_type@
                == started_label();
        assert(trace[k].task_id == t);
        assert forall|a: int, b: int|
            0 <= a < trace.len() && 0 <= b < trace.len() && #[trigger] trace[a].task_id == t
                && #[trigger] trace[b].task_id == t && trace[a].event_type@ == started_label()
                && trace[b].event_type@ == started_label() implies a == b by {
            if a < b {
                assert(trace[a].task_id != trace[b].task_id);
            } else if b < a {
                assert(trace[b].task_id != trace[a].task_id);
            }
        }
    }

    /// Starting a ready task keeps the run invariant.
    pub proof fn lemma_start_keeps_order(old: Self, new: Self, id: u128, done: Set<u128>)
        requires
            old.dependency_order(done),
            is_ready(old.task_map@, id, done),
            Self::started(old, new, id),
        ensures
            new.dependency_order(done),
    {
        let n = old.execution_trace@.len() as int;
        let ot = old.execution_trace@;
        let nt = new.execution_trace@;
        assert forall|i: int| 0 <= i < n implies #[trigger] nt[i] == ot[i] by {
            assert(nt.take(n)[i] == nt[i]);
        }
        assert forall|x: u128| #[trigger] new.task_map@.contains_key(x) == old.task_map@.contains_key(x)
            && (new.task_map@.contains_key(x) ==> new.task_map@[x].dependencies
            == old.task_map@[x].dependencies) by {}
        assert forall|upto: int, d: u128|
            0 <= upto <= n && completed_before(ot, upto, d) implies completed_before(nt, upto, d) by {
            let j = choose|j: int|
                0 <= j < upto && #[trigger] ot[j].task_id == d && ot[j].event_type@
                    == completed_label();
            assert(nt[j] == ot[j]);
        }
        assert forall|i: int|
            #![trigger nt[i]]
            0 <= i < nt.len() && nt[i].event_type@ == started_label()
                && new.task_map@.contains_key(nt[i].task_id) implies forall|j: int|
            0 <= j < new.task_map@[nt[i].task_id].dependencies@.len() ==> completed_before(
                nt,
                i,
                #[trigger] new.task_map@[nt[i].task_id].dependencies@[j],
            ) by {
            if i < n {
                assert(nt[i] == ot[i]);
                assert(ot[i].event_type@ == started_label());
            } else {
                assert(nt[i].task_id == id);
                assert forall|j: int|
                    0 <= j < new.task_map@[id].dependencies@.len() implies completed_before(
                    nt,
                    i,
                    #[trigger] new.task_map@[id].dependencies@[j],
                ) by {
                    let d = old.task_map@[id].dependencies@[j];
                    assert(done.contains(d));
                    assert(completed_before(ot, n, d));
                }
            }
        }
        assert forall|d: u128| #[trigger] done.contains(d) implies completed_before(
            nt,
            nt.len() as int,
            d,
        ) by {
            assert(completed_before(ot, n, d));
            let j = choose|j: int|
                0 <= j < n && #[trigger] ot[j].task_id == d && ot[j].event_type@
                    == completed_label();
            assert(nt[j] == ot[j]);
        }
    }

    /// Completing a task keeps the run invariant, with that task now done.
    pub proof fn lemma_finish_keeps_order(
        old: Self,
        new: Self,
        id: u128,
        output: Seq<char>,
        done: Set<u128>,
    )
        requires
            old.dependency_order(done),
            Self::finished(old, new, id, output),
        ensures
            new.dependency_order(done.insert(id)),
    {
        let n = old.execution_trace@.len() as int;
        let ot = old.execution_trace@;
        let nt = new.execution_trace@;
        assert forall|i: int| 0 <= i < n implies #[trigger] nt[i] == ot[i] by {
            assert(nt.take(n)[i] == nt[i]);
        }
        assert forall|x: u128| #[trigger] new.task_map@.contains_key(x) == old.task_map@.contains_key(x)
            && (new.task_map@.contains_key(x) ==> new.task_map@[x].dependencies
            == old.task_map@[x].dependencies) by {}
        assert(nt[n].event_type@ != started_label()) by {
            assert(completed_label().len() != started_label().len());
        }
        assert forall|i: int|
            #![trigger nt[i]]
            0 <= i < nt.len() && nt[i].event_type@ == started_label()
                && new.task_map@.contains_key(nt[i].task_id) implies forall|j: int|
            0 <= j < new.task_map@[nt[i].task_id].dependencies@.len() ==> completed_before(
                nt,
                i,
                #[trigger] new.task_map@[nt[i].task_id].dependencies@[j],
            ) by {
            assert(i < n);
            assert(nt[i] == ot[i]);
            assert(ot[i].event_type@ == started_label());
            assert forall|j: int|
                0 <= j < new.task_map@[nt[i].task_id].dependencies@.len() implies completed_before(
                nt,
                i,
                #[trigger] new.task_map@[nt[i].task_id].dependencies@[j],
            ) by {
                let d = old.task_map@[ot[i].task_id].dependencies@[j];
                assert(completed_before(ot, i, d));
                let w = choose|w: int|
                    0 <= w < i && #[trigger] ot[w].task_id == d && ot[w].event_type@
                        == completed_label();
                assert(nt[w] == ot[w]);
            }
        }
        assert forall|d: u128| #[trigger] done.insert(id).contains(d) implies completed_before(
            nt,
            nt.len() as int,
            d,
        ) by {
            if d == id {
                assert(nt[n].task_id == d);
            } else {
                assert(completed_before(ot, n, d));
                let j = choose|j: int|
                    0 <= j < n && #[trigger] ot[j].task_id == d && ot[j].event_type@
                        == completed_label();
                assert(nt[j] == ot[j]);
            }
        }
    }
}

/// A ready task listed in `ids` is among `ready_among(ids, ..)`.
pub proof fn lemma_ready_listed_is_launched(
    ids: Seq<u128>,
    tasks: Map<u128, Task>,
    done: Set<u128>,
    id: u128,
)
    requires
        ids.contains(id),
        is_ready(tasks, id, done),
    ensures
        ready_among(ids, tasks, done).contains(id),
    decreases ids.len(),
{
    let k = choose|k: int| 0 <= k < ids.len() && ids[k] == id;
    let before = ready_among(ids.drop_last(), tasks, done);
    if k < ids.len() - 1 {
        assert(ids.drop_last()[k] == id);
        lemma_ready_listed_is_launched(ids.drop_last(), tasks, done, id);
        let j = choose|j: int| 0 <= j < before.len() && before[j] == id;
        if is_ready(tasks, ids.last(), done) {
            assert(before.push(ids.last())[j] == id);
        }
    } else {
        assert(ids.last() == id);
        assert(before.push(id)[before.len() as int] == id);
    }
}

/// A `started` event for task `id` stands in `trace`.
pub open spec fn started_in(trace: Seq<ExecutionEvent>, id: u128) -> bool {
    exists|k: int|
        0 <= k < trace.len() && #[trigger] trace[k].task_id == id && trace[k].event_type@
            == started_label()
}

/// `after` is `before` changed only within the wave `wave`: the same
/// tasks are known, none has other dependencies, and the tasks outside the
/// wave are untouched.
pub open spec fn wave_frame(before: Map<u128, Task>, after: Map<u128, Task>, wave: Set<u128>) -> bool {
    &&& after.dom() == before.dom()
    &&& forall|x: u128|
        #[trigger] after.contains_key(x) ==> after[x].dependencies == before[x].dependencies
    &&& forall|x: u128| #[trigger] after.contains_key(x) && !wave.contains(x) ==> after[x] == before[x]
}

/// A wave of ready tasks, started and completed in any interleaving, keeps
/// an acyclic run in the acyclic state, with the whole wave done.
pub proof fn lemma_wave_keeps_acyclic_state(
    run_tasks: Seq<u128>,
    before: Map<u128, Task>,
    after: Map<u128, Task>,
    done: Set<u128>,
    wave: Set<u128>,
    rank: spec_fn(u128) -> nat,
)
    requires
        acyclic_run_state(run_tasks, before, done, rank),
        forall|w: u128| #[trigger] wave.contains(w) ==> is_ready(before, w, done),
        wave_frame(before, after, wave),
        forall|w: u128| #[trigger] wave.contains(w) ==> after[w].status is Completed,
    ensures
        acyclic_run_state(run_tasks, after, done.union(wave), rank),
{
    let ids = run_tasks;
    assert forall|i: int| 0 <= i < ids.len() implies after.contains_key(#[trigger] ids[i]) by {
        assert(before.contains_key(ids[i]));
    }
    assert forall|i: int| 0 <= i < ids.len() implies (done.union(wave).contains(#[trigger] ids[i])
        ==> is_settled(after, ids[i])) && (!done.union(wave).contains(ids[i])
        ==> after[ids[i]].status is Pending) by {
        assert(before.contains_key(ids[i]));
        assert(after.contains_key(ids[i]));
        if wave.contains(ids[i]) {
            assert(after[ids[i]].status is Completed);
        } else {
            assert(after[ids[i]] == before[ids[i]]);
        }
    }
    assert forall|i: int, j: int|
        0 <= i < ids.len() && 0 <= j < after[ids[i]].dependencies@.len() implies {
            let d = #[trigger] after[#[trigger] ids[i]].dependencies@[j];
            &&& ids.contains(d)
            &&& rank(d) < rank(ids[i])
        } by {
        assert(before.contains_key(ids[i]));
        assert(after.contains_key(ids[i]));
        assert(after[ids[i]].dependencies == before[ids[i]].dependencies);
        assert(before[ids[i]].dependencies@[j] == after[ids[i]].dependencies@[j]);
    }
}

/// Between two waves of a run: every listed task is known; the tasks in
/// `done` have settled and every other listed task is still pending; every
/// dependency is itself listed; and `rank` orders the dependency graph, each
/// dependency ranking below the task that waits for it (the graph is
/// acyclic).
pub open spec fn acyclic_run_state(
    ids: Seq<u128>,
    tasks: Map<u128, Task>,
    done: Set<u128>,
    rank: spec_fn(u128) -> nat,
) -> bool {
    &&& forall|i: int| 0 <= i < ids.len() ==> tasks.contains_key(#[trigger] ids[i])
    &&& forall|i: int|
        0 <= i < ids.len() ==> (done.contains(#[trigger] ids[i]) ==> is_settled(tasks, ids[i])) && (
        !done.contains(ids[i]) ==> tasks[ids[i]].status is Pending)
    &&& forall|i: int, j: int|
        0 <= i < ids.len() && 0 <= j < tasks[ids[i]].dependencies@.len() ==> {
            let d = #[trigger] tasks[#[trigger] ids[i]].dependencies@[j];
            &&& ids.contains(d)
            &&& rank(d) < rank(ids[i])
        }
}

/// Below every unsettled listed task of an acyclic run there is a ready
/// task: the task itself, or one of its unfinished dependencies, found by
/// going down the ranks.
proof fn lemma_unsettled_leads_to_ready(
    ids: Seq<u128>,
    tasks: Map<u128, Task>,
    done: Set<u128>,
    rank: spec_fn(u128) -> nat,
    t: u128,
)
    requires
        acyclic_run_state(ids, tasks, done, rank),
        ids.contains(t),
        !is_settled(tasks, t),
    ensures
        ready_among(ids, tasks, done).len() > 0,
    decreases rank(t),
{
    let i = choose|i: int| 0 <= i < ids.len() && ids[i] == t;
    assert(tasks.contains_key(ids[i]));
    assert(!done.contains(t));
    assert(tasks[t].status is Pending);
    if dependencies_done(tasks[t], done) {
        lemma_ready_listed_is_launched(ids, tasks, done, t);
    } else {
        let j = choose|j: int|
            0 <= j < tasks[t].dependencies@.len() && !done.contains(
                #[trigger] tasks[t].dependencies@[j],
            );
        let d = tasks[t].dependencies@[j];
        assert(tasks[ids[i]].dependencies@[j] == d);
        assert(ids.contains(d));
        assert(rank(d) < rank(t));
        let k = choose|k: int| 0 <= k < ids.len() && ids[k] == d;
        assert(!done.contains(ids[k]));
        assert(tasks[d].status is Pending);
        lemma_unsettled_leads_to_ready(ids, tasks, done, rank, d);
    }
}

/// An acyclic run never waits: as long as some listed task has not settled,
/// a task is ready to launch, so `next_step` answers `Launch` until every
/// task has settled and then `Finish`, whatever the crew's status.
pub proof fn lemma_acyclic_run_never_waits(
    ids: Seq<u128>,
    tasks: Map<u128, Task>,
    done: Set<u128>,
    rank: spec_fn(u128) -> nat,
)
    requires
        acyclic_run_state(ids, tasks, done, rank),
    ensures
        !all_settled(ids, tasks) ==> ready_among(ids, tasks, done).len() > 0,
{
    if !all_settled(ids, tasks) {
        let i = choose|i: int| 0 <= i < ids.len() && !is_settled(tasks, ids[i]);
        lemma_unsettled_leads_to_ready(ids, tasks, done, rank, ids[i]);
    }
}

/// Every element of `ready_among(ids, ..)` is ready and listed in `ids`.
pub proof fn lemma_ready_among_ready(ids: Seq<u128>, tasks: Map<u128, Task>, done: Set<u128>, k: int)
    requires
        0 <= k < ready_among(ids, tasks, done).len(),
    ensures
        is_ready(tasks, ready_among(ids, tasks, done)[k], done),
        ids.contains(ready_among(ids, tasks, done)[k]),
    decreases ids.len(),
{
    let before = ready_among(ids.drop_last(), tasks, done);
    if k < before.len() {
        lemma_ready_among_ready(ids.drop_last(), tasks, done, k);
        let j = choose|j: int| 0 <= j < ids.drop_last().len() && ids.drop_last()[j] == before[k];
        assert(ids[j] == before[k]);
    } else {
        assert(ids[ids.len() - 1] == ids.last());
    }
}

} // verus!
