use std::collections::VecDeque;

use vstd::prelude::*;

pub mod assignments;
pub mod model;

use crate::id_map::{lists_values, IdMap};
use crate::task::{new_id, now, State, Task, TaskEvent, TaskEventView, TaskView};
use crate::worker::client::Error;
use assignments::{append_id, WorkerTaskMap};
use model::{
    finish_step, lemma_reconciled_push, next_cursor, reconciled, send_step, DispatchView,
    ManagerView,
};

verus! {

/// An event on its way to a worker, between `send_work` and
/// `finish_send_work`.
pub struct Dispatch {
    /// Address of the chosen worker.
    pub worker: String,
    /// The event as it was queued.
    pub event: TaskEvent,
    /// The event to send: its task carries the dispatched state.
    pub outgoing: TaskEvent,
}

impl View for Dispatch {
    type V = DispatchView;

    open spec fn view(&self) -> DispatchView {
        DispatchView { worker: self.worker@, event: self.event@, outgoing: self.outgoing@ }
    }
}

/// Whether a worker's answer says that it could not be reached.
pub open spec fn is_transport_failure(outcome: Result<Task, Error>) -> bool {
    outcome is Err && outcome->Err_0 is ErrorReachingWorker
}

/// The manager: the queue of submitted events, its view of every task, and
/// which worker runs what.
pub struct Manager {
    pub pending: VecDeque<TaskEvent>,
    pub task_db: IdMap<Task>,
    pub event_db: IdMap<TaskEvent>,
    pub workers: Vec<String>,
    pub worker_task_map: WorkerTaskMap,
    pub task_worker_map: IdMap<String>,
    pub last_worker: usize,
}

impl View for Manager {
    type V = ManagerView;

    open spec fn view(&self) -> ManagerView {
        ManagerView {
            pending: self.pending@.map_values(|e: TaskEvent| e@),
            task_db: self.task_db@,
            event_db: self.event_db@,
            workers: self.workers@.map_values(|s: String| s@),
            worker_task_map: self.worker_task_map@,
            task_worker_map: self.task_worker_map@,
            last_worker: self.last_worker as nat,
        }
    }
}

impl Manager {
    /// The maps are well formed, tasks and events sit under their own ids,
    /// the cursor points at a worker, and every assigned task appears in the
    /// list of its worker.
    pub open spec fn wf(&self) -> bool {
        &&& self.task_db.wf()
        &&& self.event_db.wf()
        &&& self.task_worker_map.wf()
        &&& self.worker_task_map.wf()
        &&& forall|k: u128| #[trigger] self.task_db@.contains_key(k) ==> self.task_db@[k].id == k
        &&& forall|k: u128| #[trigger] self.event_db@.contains_key(k) ==> self.event_db@[k].id == k
        &&& self.workers@.len() > 0 ==> self.last_worker < self.workers@.len()
        &&& forall|k: u128| #[trigger]
            self.task_worker_map@.contains_key(k) ==> {
                let w = self.task_worker_map@[k];
                self.worker_task_map@.contains_key(w) && self.worker_task_map@[w].contains(k)
            }
    }

    /// A manager for the workers at the given addresses, each with an empty
    /// list of tasks, and nothing queued or recorded.
    pub fn new(workers: Vec<String>) -> (m: Manager)
        ensures
            m.wf(),
            m@.pending.len() == 0,
            m@.task_db == Map::<u128, TaskView>::empty(),
            m@.event_db == Map::<u128, TaskEventView>::empty(),
            m@.workers == workers@.map_values(|s: String| s@),
            m@.worker_task_map == Map::new(
                |w: Seq<char>| workers@.map_values(|s: String| s@).contains(w),
                |w: Seq<char>| Seq::<u128>::empty(),
            ),
            m@.task_worker_map == Map::<u128, Seq<char>>::empty(),
            m@.last_worker == 0,
    {
        let ghost names = workers@.map_values(|s: String| s@);
        let mut worker_task_map = WorkerTaskMap::new();
        let mut i: usize = 0;
        while i < workers.len()
            invariant
                0 <= i <= workers@.len(),
                names == workers@.map_values(|s: String| s@),
                worker_task_map.wf(),
                worker_task_map@ == Map::new(
                    |w: Seq<char>| names.subrange(0, i as int).contains(w),
                    |w: Seq<char>| Seq::<u128>::empty(),
                ),
            decreases workers@.len() - i,
        {
            worker_task_map.add_worker(workers[i].clone());
            proof {
                let prefix = names.subrange(0, i as int);
                let next = names.subrange(0, i + 1);
                assert(next =~= prefix.push(names[i as int]));
                assert forall|w: Seq<char>| #[trigger] next.contains(w) <==> (prefix.contains(w) || w
                    == names[i as int]) by {
                    if next.contains(w) {
                        let j = choose|j: int| 0 <= j < next.len() && next[j] == w;
                        if j < i {
                            assert(prefix[j] == w);
                        }
                    }
                    if prefix.contains(w) {
                        let j = choose|j: int| 0 <= j < prefix.len() && prefix[j] == w;
                        assert(next[j] == w);
                    }
                    if w == names[i as int] {
                        assert(next[i as int] == w);
                    }
                }
                assert(worker_task_map@ =~= Map::new(
                    |w: Seq<char>| next.contains(w),
                    |w: Seq<char>| Seq::<u128>::empty(),
                ));
            }
            i = i + 1;
        }
        proof {
            assert(names.subrange(0, workers@.len() as int) =~= names);
        }
        let m = Manager {
            pending: VecDeque::new(),
            task_db: IdMap::new(),
            event_db: IdMap::new(),
            workers,
            worker_task_map,
            task_worker_map: IdMap::new(),
            last_worker: 0,
        };
        assert(m@.pending =~= Seq::<TaskEventView>::empty());
        m
    }

    /// Appends a submitted event to the tail of `pending`.
    pub fn add_task(&mut self, te: TaskEvent)
        requires
            old(self).wf(),
        ensures
            final(self).wf(),
            final(self)@ == (ManagerView { pending: old(self)@.pending.push(te@), ..old(self)@ }),
    {
        self.pending.push_back(te);
        assert(self@.pending =~= old(self)@.pending.push(te@));
    }

    /// A copy of every task the manager knows of.
    pub fn get_tasks(&self) -> (r: Vec<Task>)
        requires
            self.wf(),
        ensures
            lists_values(r@, self@.task_db),
    {
        self.task_db.tasks()
    }

    /// Advances the round-robin cursor and returns the worker it now points at.
    pub fn select_worker(&mut self) -> (r: String)
        requires
            old(self).wf(),
            old(self).workers@.len() > 0,
        ensures
            final(self).wf(),
            final(self)@ == (ManagerView {
                last_worker: next_cursor(old(self)@.last_worker, old(self)@.workers.len()),
                ..old(self)@
            }),
            r@ == final(self)@.workers[final(self)@.last_worker as int],
    {
        let n = self.workers.len();
        assert(self.last_worker < n);
        let next = (self.last_worker + 1) % n;
        self.last_worker = next;
        self.workers[next].clone()
    }

    /// Takes the head of `pending` and chooses its worker; see `send_step`.
    /// The caller sends `outgoing` to `worker` and reports the answer with
    /// `finish_send_work`. Returns `None` when nothing is queued.
    pub fn send_work(&mut self) -> (r: Option<Dispatch>)
        requires
            old(self).wf(),
            old(self).workers@.len() > 0,
        ensures
            final(self).wf(),
            final(self)@ == send_step(old(self)@).0,
            r is Some <==> send_step(old(self)@).1 is Some,
            r is Some ==> r->0@ == send_step(old(self)@).1->0,
    {
        let te = match self.pending.pop_front() {
            None => {
                return None;
            },
            Some(te) => te,
        };
        proof {
            assert(self@.pending =~= old(self)@.pending.drop_first());
        }
        let owner: Option<String> = if te.state == State::Completed {
            match self.task_worker_map.get(te.task.id) {
                Some(w) => Some(w.clone()),
                None => None,
            }
        } else {
            None
        };
        let worker = match owner {
            Some(w) => w,
            None => self.select_worker(),
        };
        let mut task = te.task.clone();
        task.state = if te.state == State::Completed {
            State::Completed
        } else {
            State::Scheduled
        };
        let outgoing = TaskEvent { id: te.id, state: te.state, timestamp: te.timestamp, task };
        Some(Dispatch { worker, event: te, outgoing })
    }

    /// Records the worker's answer to a dispatch; see `finish_step`. If the
    /// worker could not be reached the event is queued again at the tail;
    /// after any other answer the event, the task and its assignment are
    /// recorded and the event is not retried.
    pub fn finish_send_work(&mut self, d: Dispatch, outcome: &Result<Task, Error>)
        requires
            old(self).wf(),
        ensures
            final(self).wf(),
            final(self)@ == finish_step(old(self)@, d@, is_transport_failure(*outcome)),
    {
        if let Err(Error::ErrorReachingWorker(_)) = outcome {
            self.pending.push_back(d.event);
            assert(self@.pending =~= old(self)@.pending.push(d@.event));
            return ;
        }
        let ghost dv = d@;
        let Dispatch { worker, event, outgoing } = d;
        let task = outgoing.task;
        let tid = task.id;
        self.event_db.insert(event.id, event);
        self.worker_task_map.append(worker.clone(), tid);
        self.task_worker_map.insert(tid, worker);
        self.task_db.insert(tid, task);
        proof {
            let twm = self.task_worker_map@;
            let wtm = self.worker_task_map@;
            assert forall|k: u128| #[trigger] twm.contains_key(k) implies wtm.contains_key(twm[k])
                && wtm[twm[k]].contains(k) by {
                if k == tid {
                    assert(wtm[twm[k]].last() == k);
                } else {
                    let w = old(self).task_worker_map@[k];
                    let old_list = old(self).worker_task_map@[w];
                    assert(old_list.contains(k));
                    if w == dv.worker {
                        let j = choose|j: int| 0 <= j < old_list.len() && old_list[j] == k;
                        assert(wtm[w][j] == k);
                    }
                }
            }
        }
    }

    /// Brings the record of known tasks up to date with what the workers
    /// report; see `reconciled`. Reports about unknown tasks are ignored.
    pub fn update_tasks(&mut self, reports: &Vec<Task>)
        requires
            old(self).wf(),
        ensures
            final(self).wf(),
            final(self)@ == (ManagerView {
                task_db: reconciled(old(self)@.task_db, reports@.map_values(|t: Task| t@)),
                ..old(self)@
            }),
    {
        let ghost rv = reports@.map_values(|t: Task| t@);
        let mut i: usize = 0;
        proof {
            assert(old(self)@.task_db =~= reconciled(old(self)@.task_db, rv.subrange(0, 0)));
        }
        while i < reports.len()
            invariant
                0 <= i <= reports@.len(),
                rv == reports@.map_values(|t: Task| t@),
                self.wf(),
                self@ == (ManagerView {
                    task_db: reconciled(old(self)@.task_db, rv.subrange(0, i as int)),
                    ..old(self)@
                }),
            decreases reports@.len() - i,
        {
            let r = &reports[i];
            proof {
                assert(rv.subrange(0, i + 1) =~= rv.subrange(0, i as int).push(r@));
                lemma_reconciled_push(old(self)@.task_db, rv.subrange(0, i as int), r@);
            }
            match self.task_db.get(r.id) {
                Some(t) => {
                    let mut t2 = t.clone();
                    t2.state = r.state;
                    t2.start_time = r.start_time;
                    t2.finish_time = r.finish_time;
                    t2.container_id = r.container_id.clone();
                    self.task_db.insert(r.id, t2);
                },
                None => {},
            }
            i = i + 1;
        }
        proof {
            assert(rv.subrange(0, reports@.len() as int) =~= rv);
        }
    }

    /// Queues a request to stop task `id`: a fresh event, stamped now, whose
    /// state and task state are `Completed`, the task otherwise as recorded.
    /// Returns false, and changes nothing, when the task is unknown.
    pub fn request_stop(&mut self, id: u128) -> (r: bool)
        requires
            old(self).wf(),
        ensures
            final(self).wf(),
            r == old(self)@.task_db.contains_key(id),
            !r ==> final(self)@ == old(self)@,
            r ==> {
                let te = final(self)@.pending.last();
                &&& final(self)@ == (ManagerView { pending: old(self)@.pending.push(te), ..old(self)@ })
                &&& te.state == State::Completed
                &&& te.task == (TaskView { state: State::Completed, ..old(self)@.task_db[id] })
            },
    {
        match self.task_db.get(id) {
            Some(t) => {
                let mut copy = t.clone();
                copy.state = State::Completed;
                let te = TaskEvent { id: new_id(), state: State::Completed, timestamp: now(), task: copy };
                self.add_task(te);
                true
            },
            None => false,
        }
    }
}

} // verus!
