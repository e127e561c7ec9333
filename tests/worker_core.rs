use cube::task::{DockerResult, State, Task, Timestamp};
use cube::worker::{RunStep, Worker};

fn task(id: u128, state: State) -> Task {
    Task {
        id,
        container_id: String::new(),
        name: format!("task-{}", id),
        state,
        image: "hello".to_string(),
        nano_cpus: 0,
        memory: 0,
        disk: 0,
        exposed_ports: Vec::new(),
        port_bindings: Vec::new(),
        restart_policy: String::new(),
        start_time: Timestamp { secs: 0, nanos: 0 },
        finish_time: None,
    }
}

fn stored(w: &Worker, id: u128) -> Task {
    w.get_tasks().into_iter().find(|t| t.id == id).expect("task is recorded")
}

#[test]
fn new_worker_is_empty() {
    let w = Worker::new("Worker 1");
    assert_eq!(w.name, "Worker 1");
    assert!(w.queue.is_empty());
    assert!(w.get_tasks().is_empty());
    assert_eq!(w.task_count, 0);
}

#[test]
fn empty_queue_is_a_successful_no_op() {
    let mut w = Worker::new("w");
    match w.run_task() {
        RunStep::Done(r) => assert_eq!(r.error, None),
        _ => panic!("expected a finished step"),
    }
    assert!(w.get_tasks().is_empty());
}

#[test]
fn add_task_is_fifo() {
    let mut w = Worker::new("w");
    w.add_task(task(1, State::Scheduled));
    w.add_task(task(2, State::Scheduled));
    assert_eq!(w.queue.len(), 2);
    match w.run_task() {
        RunStep::Start(t) => assert_eq!(t.id, 1),
        _ => panic!("expected a start"),
    }
    match w.run_task() {
        RunStep::Start(t) => assert_eq!(t.id, 2),
        _ => panic!("expected a start"),
    }
}

#[test]
fn start_then_stop_happy_path() {
    let mut w = Worker::new("w");
    w.add_task(task(1, State::Scheduled));
    let t = match w.run_task() {
        RunStep::Start(t) => t,
        _ => panic!("expected a start"),
    };
    assert_eq!(t.id, 1);
    assert!(t.start_time.secs > 0);
    w.start_task(t, &DockerResult::success("start", "c-123", "success"));
    let tasks = w.get_tasks();
    assert_eq!(tasks.len(), 1);
    assert_eq!(tasks[0].id, 1);
    assert_eq!(tasks[0].state, State::Running);
    assert_eq!(tasks[0].container_id, "c-123");

    assert!(w.request_stop(1));
    let t = match w.run_task() {
        RunStep::Stop(t) => t,
        _ => panic!("expected a stop"),
    };
    assert_eq!(t.container_id, "c-123");
    w.stop_task(t);
    let tasks = w.get_tasks();
    assert_eq!(tasks.len(), 1);
    assert_eq!(tasks[0].state, State::Completed);
    assert!(tasks[0].finish_time.is_some());
}

#[test]
fn illegal_transition_rejected() {
    let mut w = Worker::new("w");
    w.db.insert(1, task(1, State::Running));
    w.add_task(task(1, State::Pending));
    match w.run_task() {
        RunStep::Done(r) => {
            assert_eq!(r.error.as_deref(), Some("invalid state transition from running to pending"))
        }
        _ => panic!("the runtime must not be asked"),
    }
    assert_eq!(stored(&w, 1).state, State::Running);
    assert!(w.queue.is_empty());
}

#[test]
fn every_pair_outside_the_table_is_refused() {
    let all = [State::Pending, State::Scheduled, State::Running, State::Completed, State::Failed];
    for from in all {
        for to in all {
            if cube::task::is_valid_transition(from, to) {
                continue;
            }
            let mut w = Worker::new("w");
            w.db.insert(5, task(5, from));
            w.add_task(task(5, to));
            match w.run_task() {
                RunStep::Done(r) => assert!(r.error.is_some()),
                _ => panic!("{:?} -> {:?} reached the runtime", from, to),
            }
            assert_eq!(stored(&w, 5).state, from);
        }
    }
}

#[test]
fn new_task_in_non_self_looping_state_is_recorded_and_refused() {
    let mut w = Worker::new("w");
    w.add_task(task(3, State::Pending));
    match w.run_task() {
        RunStep::Done(r) => assert!(r.error.is_some()),
        _ => panic!("expected a refusal"),
    }
    assert_eq!(stored(&w, 3).state, State::Pending);
}

#[test]
fn permitted_transition_without_runtime_action_is_an_error() {
    let mut w = Worker::new("w");
    w.db.insert(4, task(4, State::Scheduled));
    w.add_task(task(4, State::Running));
    match w.run_task() {
        RunStep::Done(r) => assert_eq!(r.error.as_deref(), Some("invalid state transition")),
        _ => panic!("expected an error"),
    }
    assert_eq!(stored(&w, 4).state, State::Scheduled);
}

#[test]
fn runtime_start_error_marks_failed() {
    let mut w = Worker::new("w");
    w.add_task(task(1, State::Scheduled));
    let t = match w.run_task() {
        RunStep::Start(t) => t,
        _ => panic!("expected a start"),
    };
    w.start_task(t, &DockerResult::error("image not found"));
    let t = stored(&w, 1);
    assert_eq!(t.state, State::Failed);
    assert_eq!(t.container_id, "");
}

#[test]
fn worker_stop_of_unknown_task_is_refused() {
    let mut w = Worker::new("w");
    assert!(!w.request_stop(42));
    assert!(w.queue.is_empty());
}

#[test]
fn stop_request_queues_completed_copy() {
    let mut w = Worker::new("w");
    let mut t = task(8, State::Running);
    t.container_id = "c8".to_string();
    w.db.insert(8, t);
    assert!(w.request_stop(8));
    assert_eq!(w.queue.len(), 1);
    assert_eq!(w.queue[0].state, State::Completed);
    assert_eq!(w.queue[0].container_id, "c8");
    assert_eq!(stored(&w, 8).state, State::Running);
}
