use cube::manager::Manager;
use cube::task::{State, Task, TaskEvent, Timestamp};
use cube::worker::client::Error;

fn task(id: u128, state: State) -> Task {
    Task {
        id,
        container_id: String::new(),
        name: format!("task-{}", id),
        state,
        image: "hello".to_string(),
        nano_cpus: 0,
        memory: 0,
        disk: 0,
        exposed_ports: Vec::new(),
        port_bindings: Vec::new(),
        restart_policy: String::new(),
        start_time: Timestamp { secs: 10, nanos: 0 },
        finish_time: None,
    }
}

fn event(id: u128, task_id: u128, state: State) -> TaskEvent {
    TaskEvent { id, state, timestamp: Timestamp { secs: 20, nanos: 0 }, task: task(task_id, state) }
}

fn workers(names: &[&str]) -> Vec<String> {
    names.iter().map(|s| s.to_string()).collect()
}

fn dispatch_ok(m: &mut Manager) -> String {
    let d = m.send_work().expect("an event is queued");
    let w = d.worker.clone();
    let answer = Ok(d.outgoing.task.clone());
    m.finish_send_work(d, &answer);
    w
}

#[test]
fn new_manager_lists_every_worker() {
    let m = Manager::new(workers(&["a:1", "b:2"]));
    assert!(m.pending.is_empty());
    assert!(m.get_tasks().is_empty());
    assert_eq!(m.last_worker, 0);
    assert_eq!(m.worker_task_map.get(&"a:1".to_string()), Some(&Vec::new()));
    assert_eq!(m.worker_task_map.get(&"b:2".to_string()), Some(&Vec::new()));
    assert_eq!(m.worker_task_map.get(&"c:3".to_string()), None);
}

#[test]
fn select_worker_increments_before_use() {
    let mut m = Manager::new(workers(&["A", "B", "C"]));
    assert_eq!(m.select_worker(), "B");
    assert_eq!(m.select_worker(), "C");
    assert_eq!(m.select_worker(), "A");
    assert_eq!(m.last_worker, 0);
}

#[test]
fn round_robin_dispatch() {
    let mut m = Manager::new(workers(&["A", "B", "C"]));
    for i in 0..4u128 {
        m.add_task(event(100 + i, i, State::Scheduled));
    }
    let got: Vec<String> = (0..4).map(|_| dispatch_ok(&mut m)).collect();
    assert_eq!(got, vec!["B", "C", "A", "B"]);
}

#[test]
fn round_robin_single_worker() {
    let mut m = Manager::new(workers(&["only"]));
    for i in 0..3u128 {
        m.add_task(event(100 + i, i, State::Scheduled));
    }
    for _ in 0..3 {
        assert_eq!(dispatch_ok(&mut m), "only");
    }
}

#[test]
fn send_work_on_empty_queue_does_nothing() {
    let mut m = Manager::new(workers(&["A", "B"]));
    assert!(m.send_work().is_none());
    assert_eq!(m.last_worker, 0);
}

#[test]
fn successful_send_records_everything() {
    let mut m = Manager::new(workers(&["A", "B"]));
    m.add_task(event(100, 1, State::Pending));
    let d = m.send_work().unwrap();
    assert_eq!(d.worker, "B");
    assert_eq!(d.outgoing.task.state, State::Scheduled);
    assert_eq!(d.outgoing.id, 100);
    assert_eq!(d.event.task.state, State::Pending);
    let answer = Ok(d.outgoing.task.clone());
    m.finish_send_work(d, &answer);
    assert_eq!(m.task_worker_map.get(1).map(|s| s.as_str()), Some("B"));
    assert_eq!(m.worker_task_map.get(&"B".to_string()), Some(&vec![1u128]));
    let recorded = m.event_db.get(100).unwrap();
    assert_eq!(*recorded, event(100, 1, State::Pending));
    assert_eq!(m.task_db.get(1).unwrap().state, State::Scheduled);
    assert!(m.pending.is_empty());
}

#[test]
fn transport_failure_requeues() {
    let mut m = Manager::new(workers(&["A"]));
    m.add_task(event(100, 1, State::Scheduled));
    let d = m.send_work().unwrap();
    assert_eq!(d.worker, "A");
    m.finish_send_work(d, &Err(Error::ErrorReachingWorker("connection refused".to_string())));
    assert_eq!(m.pending.len(), 1);
    assert_eq!(m.pending[0], event(100, 1, State::Scheduled));
    assert!(m.get_tasks().is_empty());
    assert!(m.event_db.get(100).is_none());
    assert!(m.task_worker_map.get(1).is_none());
    assert_eq!(m.worker_task_map.get(&"A".to_string()), Some(&Vec::new()));
}

#[test]
fn transport_failure_keeps_queue_length_and_moves_event_to_tail() {
    let mut m = Manager::new(workers(&["A", "B"]));
    m.add_task(event(100, 1, State::Scheduled));
    m.add_task(event(101, 2, State::Scheduled));
    let d = m.send_work().unwrap();
    m.finish_send_work(d, &Err(Error::ErrorReachingWorker("timeout".to_string())));
    assert_eq!(m.pending.len(), 2);
    assert_eq!(m.pending[0].id, 101);
    assert_eq!(m.pending[1].id, 100);
    let retried = m.send_work().unwrap();
    assert_eq!(retried.event.id, 101);
    assert_eq!(retried.worker, "A");
}

#[test]
fn other_errors_are_not_retried() {
    let mut m = Manager::new(workers(&["A"]));
    m.add_task(event(100, 1, State::Scheduled));
    let d = m.send_work().unwrap();
    m.finish_send_work(d, &Err(Error::StatusCodeError(500, "oops".to_string())));
    assert!(m.pending.is_empty());
    assert_eq!(m.task_db.get(1).unwrap().state, State::Scheduled);
    m.add_task(event(101, 2, State::Scheduled));
    let d = m.send_work().unwrap();
    m.finish_send_work(d, &Err(Error::ErrorDecodingResponse("bad json".to_string())));
    assert!(m.pending.is_empty());
    assert!(m.event_db.get(101).is_some());
}

#[test]
fn reconciliation_updates_state() {
    let mut m = Manager::new(workers(&["A"]));
    m.add_task(event(100, 1, State::Scheduled));
    dispatch_ok(&mut m);
    assert_eq!(m.task_db.get(1).unwrap().state, State::Scheduled);
    let mut report = task(1, State::Running);
    report.container_id = "c1".to_string();
    report.start_time = Timestamp { secs: 99, nanos: 1 };
    report.name = "renamed".to_string();
    m.update_tasks(&vec![report, task(77, State::Running)]);
    let t = m.task_db.get(1).unwrap();
    assert_eq!(t.state, State::Running);
    assert_eq!(t.container_id, "c1");
    assert_eq!(t.start_time, Timestamp { secs: 99, nanos: 1 });
    assert_eq!(t.name, "task-1");
    assert!(m.task_db.get(77).is_none());
    assert_eq!(m.get_tasks().len(), 1);
}

#[test]
fn reconciliation_is_idempotent() {
    let mut m = Manager::new(workers(&["A"]));
    m.add_task(event(100, 1, State::Scheduled));
    m.add_task(event(101, 2, State::Scheduled));
    dispatch_ok(&mut m);
    dispatch_ok(&mut m);
    let mut r1 = task(1, State::Running);
    r1.container_id = "c1".to_string();
    let mut r2 = task(2, State::Completed);
    r2.finish_time = Some(Timestamp { secs: 50, nanos: 0 });
    let reports = vec![r1, r2];
    m.update_tasks(&reports);
    let once = m.get_tasks();
    m.update_tasks(&reports);
    assert_eq!(m.get_tasks(), once);
    assert_eq!(once[1].finish_time, Some(Timestamp { secs: 50, nanos: 0 }));
}

#[test]
fn last_report_wins() {
    let mut m = Manager::new(workers(&["A"]));
    m.add_task(event(100, 1, State::Scheduled));
    dispatch_ok(&mut m);
    m.update_tasks(&vec![task(1, State::Running), task(1, State::Failed)]);
    assert_eq!(m.task_db.get(1).unwrap().state, State::Failed);
}

#[test]
fn stop_goes_to_owning_worker() {
    let mut m = Manager::new(workers(&["A", "B", "C"]));
    m.add_task(event(100, 1, State::Scheduled));
    assert_eq!(dispatch_ok(&mut m), "B");
    assert!(m.request_stop(1));
    assert_eq!(m.pending.len(), 1);
    assert_eq!(m.pending[0].state, State::Completed);
    assert_eq!(m.pending[0].task.state, State::Completed);
    assert_ne!(m.pending[0].id, 100);
    let d = m.send_work().unwrap();
    assert_eq!(d.worker, "B");
    assert_eq!(d.outgoing.task.state, State::Completed);
    assert_eq!(m.last_worker, 1);
    let answer = Ok(d.outgoing.task.clone());
    m.finish_send_work(d, &answer);
    assert_eq!(m.task_db.get(1).unwrap().state, State::Completed);
    assert_eq!(m.worker_task_map.get(&"B".to_string()), Some(&vec![1u128, 1u128]));
}

#[test]
fn manager_stop_of_unknown_task_is_refused() {
    let mut m = Manager::new(workers(&["A"]));
    assert!(!m.request_stop(5));
    assert!(m.pending.is_empty());
}

#[test]
fn stop_without_known_owner_falls_back_to_round_robin() {
    let mut m = Manager::new(workers(&["A", "B"]));
    m.add_task(event(100, 1, State::Completed));
    let d = m.send_work().unwrap();
    assert_eq!(d.worker, "B");
    assert_eq!(d.outgoing.task.state, State::Completed);
}
