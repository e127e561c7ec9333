use vstd::prelude::*;

use super::assignments::append_id;
use crate::task::{State, TaskEventView, TaskView};

verus! {

/// Mathematical value of a `Manager`.
pub struct ManagerView {
    pub pending: Seq<TaskEventView>,
    pub task_db: Map<u128, TaskView>,
    pub event_db: Map<u128, TaskEventView>,
    pub workers: Seq<Seq<char>>,
    pub worker_task_map: Map<Seq<char>, Seq<u128>>,
    pub task_worker_map: Map<u128, Seq<char>>,
    pub last_worker: nat,
}

/// Mathematical value of a `Dispatch`.
pub struct DispatchView {
    pub worker: Seq<char>,
    pub event: TaskEventView,
    pub outgoing: TaskEventView,
}

/// The round-robin cursor after one more selection among `n` workers.
pub open spec fn next_cursor(last: nat, n: nat) -> nat {
    if n == 0 {
        0
    } else {
        (last + 1) % n
    }
}

/// Whether `te` asks to stop a task whose owning worker is known.
pub open spec fn is_routed_stop(m: ManagerView, te: TaskEventView) -> bool {
    te.state == State::Completed && m.task_worker_map.contains_key(te.task.id)
}

/// State of the task as sent downstream: a stop stays a stop, anything else
/// is sent as `Scheduled`.
pub open spec fn dispatched_state(s: State) -> State {
    if s == State::Completed {
        State::Completed
    } else {
        State::Scheduled
    }
}

/// The event as sent to the worker: the task carries the dispatched state.
pub open spec fn outgoing_event(te: TaskEventView) -> TaskEventView {
    TaskEventView { task: TaskView { state: dispatched_state(te.state), ..te.task }, ..te }
}

/// First half of dispatching: take the head of `pending` and choose its
/// worker. A stop for a task with a known owner goes to that owner and leaves
/// the cursor alone; any other event goes to the next worker in round-robin
/// order. Nothing is recorded yet.
pub open spec fn send_step(m: ManagerView) -> (ManagerView, Option<DispatchView>) {
    if m.pending.len() == 0 {
        (m, None)
    } else {
        let te = m.pending[0];
        let routed = is_routed_stop(m, te);
        let cursor = if routed {
            m.last_worker
        } else {
            next_cursor(m.last_worker, m.workers.len())
        };
        let worker = if routed {
            m.task_worker_map[te.task.id]
        } else {
            m.workers[cursor as int]
        };
        (
            ManagerView { pending: m.pending.drop_first(), last_worker: cursor, ..m },
            Some(DispatchView { worker, event: te, outgoing: outgoing_event(te) }),
        )
    }
}

/// Second half of dispatching, once the worker has answered. When it could
/// not be reached the event goes back to the tail of `pending` and nothing is
/// recorded; otherwise the event, the task and its assignment are recorded.
pub open spec fn finish_step(m: ManagerView, d: DispatchView, unreachable: bool) -> ManagerView {
    if unreachable {
        ManagerView { pending: m.pending.push(d.event), ..m }
    } else {
        let task = d.outgoing.task;
        ManagerView {
            task_db: m.task_db.insert(task.id, task),
            event_db: m.event_db.insert(d.event.id, d.event),
            worker_task_map: append_id(m.worker_task_map, d.worker, task.id),
            task_worker_map: m.task_worker_map.insert(task.id, d.worker),
            ..m
        }
    }
}

/// `n` dispatches in a row, every worker reachable: the final manager and
/// the worker chosen for each event.
pub open spec fn dispatch_all(m: ManagerView, n: nat) -> (ManagerView, Seq<Seq<char>>)
    decreases n,
{
    if n == 0 {
        (m, Seq::empty())
    } else {
        let (m1, sent) = dispatch_all(m, (n - 1) as nat);
        let (m2, d) = send_step(m1);
        match d {
            Some(d) => (finish_step(m2, d, false), sent.push(d.worker)),
            None => (m2, sent),
        }
    }
}

/// The task with the fields that a worker reports copied from `r`.
pub open spec fn refreshed(t: TaskView, r: TaskView) -> TaskView {
    TaskView {
        state: r.state,
        start_time: r.start_time,
        finish_time: r.finish_time,
        container_id: r.container_id,
        ..t
    }
}

/// The last report about task `id`, if any.
pub open spec fn last_report(reports: Seq<TaskView>, id: u128) -> Option<TaskView>
    decreases reports.len(),
{
    if reports.len() == 0 {
        None
    } else if reports.last().id == id {
        Some(reports.last())
    } else {
        last_report(reports.drop_last(), id)
    }
}

/// `db` brought up to date with the workers' reports: each known task takes
/// state, start and finish time and container id from its last report;
/// reports about unknown tasks are ignored.
pub open spec fn reconciled(db: Map<u128, TaskView>, reports: Seq<TaskView>) -> Map<u128, TaskView> {
    Map::new(
        |k: u128| db.contains_key(k),
        |k: u128|
            match last_report(reports, k) {
                Some(r) => refreshed(db[k], r),
                None => db[k],
            },
    )
}

/// Reconciling twice with the same reports gives what reconciling once gives.
pub proof fn lemma_reconcile_idempotent(db: Map<u128, TaskView>, reports: Seq<TaskView>)
    ensures
        reconciled(reconciled(db, reports), reports) == reconciled(db, reports),
{
    assert(reconciled(reconciled(db, reports), reports) =~= reconciled(db, reports));
}

/// Round-robin dispatch: when `n` queued events that are not stop requests
/// are dispatched with every worker reachable, the `i`-th of them goes to the
/// worker `(cursor + i + 1) mod K`, where `K` is the number of workers. From a
/// fresh manager (cursor 0) the first goes to index 1.
pub proof fn lemma_round_robin(m: ManagerView, n: nat)
    requires
        m.workers.len() > 0,
        m.last_worker < m.workers.len(),
        n <= m.pending.len(),
        forall|i: int| 0 <= i < n ==> #[trigger] m.pending[i].state != State::Completed,
    ensures
        dispatch_all(m, n).1.len() == n,
        forall|i: int|
            0 <= i < n ==> #[trigger] dispatch_all(m, n).1[i] == m.workers[(m.last_worker + i + 1)
                % (m.workers.len() as int)],
    decreases n,
{
    lemma_dispatch_all_shape(m, n);
}

/// What `dispatch_all` keeps track of, step by step.
proof fn lemma_dispatch_all_shape(m: ManagerView, n: nat)
    requires
        m.workers.len() > 0,
        m.last_worker < m.workers.len(),
        n <= m.pending.len(),
        forall|i: int| 0 <= i < n ==> #[trigger] m.pending[i].state != State::Completed,
    ensures
        dispatch_all(m, n).0.pending == m.pending.subrange(n as int, m.pending.len() as int),
        dispatch_all(m, n).0.workers == m.workers,
        dispatch_all(m, n).0.last_worker == (m.last_worker + n) as int % (m.workers.len() as int),
        dispatch_all(m, n).1.len() == n,
        forall|i: int|
            0 <= i < n ==> #[trigger] dispatch_all(m, n).1[i] == m.workers[(m.last_worker + i + 1)
                % (m.workers.len() as int)],
    decreases n,
{
    let k = m.workers.len() as int;
    if n == 0 {
        assert(m.pending.subrange(0, m.pending.len() as int) =~= m.pending);
        vstd::arithmetic::div_mod::lemma_small_mod(m.last_worker, k as nat);
    } else {
        lemma_dispatch_all_shape(m, (n - 1) as nat);
        let (m1, sent) = dispatch_all(m, (n - 1) as nat);
        assert(m1.pending.len() > 0);
        assert(m1.pending[0] == m.pending[n - 1]);
        vstd::arithmetic::div_mod::lemma_add_mod_noop_right(1, m.last_worker + n - 1, k);
        assert(m1.last_worker + 1 == 1 + (m.last_worker + n - 1) % k);
        let (m2, d) = send_step(m1);
        assert(m2.pending =~= m.pending.subrange(n as int, m.pending.len() as int));
        assert(dispatch_all(m, n).1 == sent.push(m.workers[(m.last_worker + n) as int % k]));
    }
}

/// Reconciling with one more report changes at most the task it is about.
pub proof fn lemma_reconciled_push(db: Map<u128, TaskView>, s: Seq<TaskView>, x: TaskView)
    ensures
        reconciled(db, s.push(x)) == if db.contains_key(x.id) {
            reconciled(db, s).insert(x.id, refreshed(reconciled(db, s)[x.id], x))
        } else {
            reconciled(db, s)
        },
{
    assert(s.push(x).drop_last() =~= s);
    if db.contains_key(x.id) {
        assert(reconciled(db, s.push(x)) =~= reconciled(db, s).insert(
            x.id,
            refreshed(reconciled(db, s)[x.id], x),
        ));
    } else {
        assert(reconciled(db, s.push(x)) =~= reconciled(db, s));
    }
}

/// After a dispatch that the worker answered, the task is assigned to the
/// chosen worker and listed under it, the event is recorded as queued, and
/// the task is recorded in the dispatched state (`Scheduled` for anything but
/// a stop request).
pub proof fn lemma_dispatch_records(m: ManagerView)
    requires
        m.pending.len() > 0,
        m.workers.len() > 0,
    ensures
        ({
            let (m1, d) = send_step(m);
            let te = m.pending[0];
            let w = d->0.worker;
            let m2 = finish_step(m1, d->0, false);
            &&& m2.task_worker_map[te.task.id] == w
            &&& m2.worker_task_map[w].contains(te.task.id)
            &&& m2.event_db[te.id] == te
            &&& m2.task_db[te.task.id].state == dispatched_state(te.state)
            &&& te.state != State::Completed ==> m2.task_db[te.task.id].state == State::Scheduled
        }),
{
    let (m1, d) = send_step(m);
    let te = m.pending[0];
    let w = d->0.worker;
    let m2 = finish_step(m1, d->0, false);
    assert(m2.worker_task_map[w].last() == te.task.id);
}

/// When the chosen worker cannot be reached, `pending` keeps its length with
/// the event now at its tail, and nothing is recorded in the task, event or
/// assignment maps.
pub proof fn lemma_transport_failure_requeues(m: ManagerView)
    requires
        m.pending.len() > 0,
        m.workers.len() > 0,
    ensures
        ({
            let (m1, d) = send_step(m);
            let m2 = finish_step(m1, d->0, true);
            &&& m2.pending.len() == m.pending.len()
            &&& m2.pending.last() == m.pending[0]
            &&& m2.pending == m.pending.drop_first().push(m.pending[0])
            &&& m2.task_db == m.task_db
            &&& m2.event_db == m.event_db
            &&& m2.worker_task_map == m.worker_task_map
            &&& m2.task_worker_map == m.task_worker_map
        }),
{
}

} // verus!
