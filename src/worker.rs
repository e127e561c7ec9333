use std::collections::VecDeque;

pub mod client;
pub mod stats;

use vstd::prelude::*;
use vstd::string::StringExecFns;

use crate::id_map::{lists_values, IdMap};
use crate::task::state_machine::valid_transition;
use crate::task::{
    is_valid_transition, now, state_name, DockerResult, State, Task, TaskView, Timestamp,
};

verus! {

/// What the caller must do after one step of the worker's run loop.
pub enum RunStep {
    /// The step is over and this is its outcome; the runtime is not involved.
    Done(DockerResult),
    /// Start the task on the runtime with `new_config(&task)`, then report
    /// the outcome with `Worker::start_task`.
    Start(Task),
    /// Stop and remove the task's container, then call `Worker::stop_task`.
    Stop(Task),
}

/// The task as stored after the runtime failed to start it.
pub open spec fn failed_view(t: TaskView) -> TaskView {
    TaskView { state: State::Failed, ..t }
}

/// The task as stored after the runtime started it in container `cid`.
pub open spec fn running_view(t: TaskView, cid: Seq<char>) -> TaskView {
    TaskView { state: State::Running, container_id: cid, ..t }
}

/// The task as stored after its container was stopped at `at`.
pub open spec fn completed_view(t: TaskView, at: Timestamp) -> TaskView {
    TaskView { state: State::Completed, finish_time: Some(at), ..t }
}

/// The state a task is in for the worker: its record in `db`, or the
/// requested snapshot itself when the worker has none.
pub open spec fn current_state(db: Map<u128, TaskView>, t: TaskView) -> State {
    if db.contains_key(t.id) {
        db[t.id].state
    } else {
        t.state
    }
}

/// `db` after the worker has seen `t`: a task met for the first time is
/// recorded as requested.
pub open spec fn db_after_lookup(db: Map<u128, TaskView>, t: TaskView) -> Map<u128, TaskView> {
    if db.contains_key(t.id) {
        db
    } else {
        db.insert(t.id, t)
    }
}

/// Text of the error for a refused transition.
pub open spec fn transition_error(from: State, to: State) -> Seq<char> {
    "invalid state transition from "@ + state_name(from) + " to "@ + state_name(to)
}

/// Text of the error for a permitted transition that asks the runtime for nothing.
pub open spec fn no_action_error() -> Seq<char> {
    "invalid state transition"@
}

/// A worker node: a FIFO of requested task snapshots and the record of the
/// tasks it runs.
pub struct Worker {
    pub name: String,
    pub queue: VecDeque<Task>,
    pub db: IdMap<Task>,
    pub task_count: u64,
}

impl Worker {
    /// The record is a well-formed map in which every task sits under its own id.
    pub open spec fn wf(&self) -> bool {
        &&& self.db.wf()
        &&& forall|k: u128| #[trigger] self.db@.contains_key(k) ==> self.db@[k].id == k
    }

    /// The queue as task values, head first.
    pub open spec fn queue_view(&self) -> Seq<TaskView> {
        self.queue@.map_values(|t: Task| t@)
    }

    /// A worker named `name` with an empty queue and no tasks.
    pub fn new(name: &str) -> (w: Worker)
        ensures
            w.wf(),
            w.name@ == name@,
            w.queue@.len() == 0,
            w.db@ == Map::<u128, TaskView>::empty(),
            w.task_count == 0,
    {
        Worker { name: String::from_str(name), queue: VecDeque::new(), db: IdMap::new(), task_count: 0 }
    }

    /// Appends a requested task snapshot to the tail of the queue.
    pub fn add_task(&mut self, t: Task)
        requires
            old(self).wf(),
        ensures
            final(self).wf(),
            final(self).queue_view() == old(self).queue_view().push(t@),
            final(self).db@ == old(self).db@,
            final(self).name == old(self).name,
            final(self).task_count == old(self).task_count,
    {
        self.queue.push_back(t);
        assert(self.queue_view() =~= old(self).queue_view().push(t@));
    }

    /// Takes the head of the queue and decides what it asks for.
    ///
    /// A task the worker has no record of is first recorded as requested. If
    /// moving from the recorded state to the requested one is not in the
    /// transition table, the step ends in an error and the runtime is not
    /// involved. Otherwise a request for `Scheduled` becomes a start (with the
    /// start time set to now) and one for `Completed` a stop; any other
    /// request ends in an error. An empty queue gives a successful no-op.
    pub fn run_task(&mut self) -> (r: RunStep)
        requires
            old(self).wf(),
        ensures
            final(self).wf(),
            final(self).name == old(self).name,
            final(self).task_count == old(self).task_count,
            old(self).queue@.len() == 0 ==> {
                &&& r is Done
                &&& r->Done_0.error is None
                &&& r->Done_0.action@.len() == 0
                &&& r->Done_0.container_id@.len() == 0
                &&& r->Done_0.result@.len() == 0
                &&& final(self).queue@.len() == 0
                &&& final(self).db@ == old(self).db@
            },
            old(self).queue@.len() > 0 ==> {
                let t = old(self).queue@[0]@;
                let from = current_state(old(self).db@, t);
                let ok = valid_transition(from, t.state);
                &&& final(self).queue_view() == old(self).queue_view().drop_first()
                &&& final(self).db@ == db_after_lookup(old(self).db@, t)
                &&& !ok ==> r is Done && r->Done_0.error is Some
                    && r->Done_0.error->0@ == transition_error(from, t.state)
                &&& (r is Start <==> ok && t.state == State::Scheduled)
                &&& (r is Start ==> r->Start_0@ == TaskView { start_time: r->Start_0.start_time, ..t })
                &&& (r is Stop <==> ok && t.state == State::Completed)
                &&& (r is Stop ==> r->Stop_0@ == t)
                &&& (ok && t.state != State::Scheduled && t.state != State::Completed) ==> r is Done
                    && r->Done_0.error is Some && r->Done_0.error->0@ == no_action_error()
            },
    {
        let head = self.queue.pop_front();
        let t = match head {
            None => {
                proof {
                    reveal_strlit("");
                }
                return RunStep::Done(DockerResult::success("", "", ""));
            },
            Some(t) => t,
        };
        proof {
            assert(self.queue_view() =~= old(self).queue_view().drop_first());
        }
        let from = match self.db.get(t.id) {
            Some(p) => p.state,
            None => {
                let s = t.state;
                self.db.insert(t.id, t.clone());
                s
            },
        };
        proof {
            assert(self.db@ =~= db_after_lookup(old(self).db@, t@));
        }
        if !is_valid_transition(from, t.state) {
            let mut msg = String::from_str("invalid state transition from ");
            msg.append(from.as_str());
            msg.append(" to ");
            msg.append(t.state.as_str());
            proof {
                assert(msg@ =~= transition_error(from, t.state));
            }
            return RunStep::Done(DockerResult::error(msg.as_str()));
        }
        match t.state {
            State::Scheduled => {
                let mut t = t;
                t.start_time = now();
                RunStep::Start(t)
            },
            State::Completed => RunStep::Stop(t),
            _ => RunStep::Done(DockerResult::error("invalid state transition")),
        }
    }

    /// Records the runtime's answer to starting `t`: on error the task is
    /// stored as `Failed`; on success as `Running` in the container that the
    /// runtime reported.
    pub fn start_task(&mut self, t: Task, result: &DockerResult)
        requires
            old(self).wf(),
        ensures
            final(self).wf(),
            final(self).queue@ == old(self).queue@,
            final(self).name == old(self).name,
            final(self).task_count == old(self).task_count,
            result.error is Some ==> final(self).db@ == old(self).db@.insert(t.id, failed_view(t@)),
            result.error is None ==> final(self).db@ == old(self).db@.insert(
                t.id,
                running_view(t@, result.container_id@),
            ),
    {
        let mut t = t;
        if result.error.is_some() {
            t.state = State::Failed;
        } else {
            t.container_id = result.container_id.clone();
            t.state = State::Running;
        }
        self.db.insert(t.id, t);
    }

    /// Records that the container of `t` was asked to stop: whatever the
    /// runtime answered, the task is stored as `Completed`, finished now.
    pub fn stop_task(&mut self, t: Task)
        requires
            old(self).wf(),
        ensures
            final(self).wf(),
            final(self).queue@ == old(self).queue@,
            final(self).name == old(self).name,
            final(self).task_count == old(self).task_count,
            final(self).db@[t.id].finish_time is Some,
            final(self).db@ == old(self).db@.insert(
                t.id,
                completed_view(t@, final(self).db@[t.id].finish_time->0),
            ),
    {
        let mut t = t;
        t.finish_time = Some(now());
        t.state = State::Completed;
        self.db.insert(t.id, t);
    }

    /// Queues a request to stop the recorded task `id`: a copy of its record
    /// with the state set to `Completed`. Returns false, and changes nothing,
    /// when the worker has no such task.
    pub fn request_stop(&mut self, id: u128) -> (r: bool)
        requires
            old(self).wf(),
        ensures
            final(self).wf(),
            r == old(self).db@.contains_key(id),
            final(self).db@ == old(self).db@,
            r ==> final(self).queue_view() == old(self).queue_view().push(
                TaskView { state: State::Completed, ..old(self).db@[id] },
            ),
            !r ==> final(self).queue@ == old(self).queue@,
    {
        match self.db.get(id) {
            Some(t) => {
                let mut copy = t.clone();
                copy.state = State::Completed;
                self.add_task(copy);
                true
            },
            None => false,
        }
    }

    /// A copy of every task the worker has a record of.
    pub fn get_tasks(&self) -> (r: Vec<Task>)
        requires
            self.wf(),
        ensures
            lists_values(r@, self.db@),
    {
        self.db.tasks()
    }
}

} // verus!
