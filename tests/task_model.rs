use cube::task::{
    is_valid_transition, new_config, split_image, state_transition_map, DockerResult, Port, PortBinding,
    Protocol, State, Task, TaskEvent, Timestamp,
};

const ALL: [State; 5] = [State::Pending, State::Scheduled, State::Running, State::Completed, State::Failed];

fn sample_task() -> Task {
    Task {
        id: 7,
        container_id: "container_id".to_string(),
        name: "task_name".to_string(),
        state: State::Pending,
        image: "image_name".to_string(),
        nano_cpus: 500_000_000,
        memory: 1024,
        disk: 10,
        exposed_ports: vec![Port { number: 80, protocol: Protocol::Tcp }],
        port_bindings: vec![PortBinding { host: "8080".to_string(), container: "80".to_string() }],
        restart_policy: "always".to_string(),
        start_time: Timestamp { secs: 1_700_000_000, nanos: 5 },
        finish_time: None,
    }
}

#[test]
fn transition_table_rows() {
    assert_eq!(state_transition_map(State::Pending), &[State::Scheduled]);
    assert_eq!(state_transition_map(State::Scheduled), &[State::Scheduled, State::Running, State::Failed]);
    assert_eq!(state_transition_map(State::Running), &[State::Running, State::Completed, State::Failed]);
    assert!(state_transition_map(State::Completed).is_empty());
    assert!(state_transition_map(State::Failed).is_empty());
}

#[test]
fn valid_transition_matches_table_for_every_pair() {
    let allowed = [
        (State::Pending, State::Scheduled),
        (State::Scheduled, State::Scheduled),
        (State::Scheduled, State::Running),
        (State::Scheduled, State::Failed),
        (State::Running, State::Running),
        (State::Running, State::Completed),
        (State::Running, State::Failed),
    ];
    let mut count = 0;
    for from in ALL {
        for to in ALL {
            let expected = allowed.contains(&(from, to));
            assert_eq!(is_valid_transition(from, to), expected, "{:?} -> {:?}", from, to);
            if expected {
                count += 1;
            }
        }
    }
    assert_eq!(count, 7);
}

#[test]
fn terminal_states_are_sticky() {
    for to in ALL {
        assert!(!is_valid_transition(State::Completed, to));
        assert!(!is_valid_transition(State::Failed, to));
    }
}

#[test]
fn state_names_are_lowercase() {
    assert_eq!(State::Pending.as_str(), "pending");
    assert_eq!(State::Scheduled.as_str(), "scheduled");
    assert_eq!(State::Running.as_str(), "running");
    assert_eq!(State::Completed.as_str(), "completed");
    assert_eq!(State::Failed.as_str(), "failed");
}

#[test]
fn state_names_round_trip() {
    for s in ALL {
        assert_eq!(State::from_name(s.as_str()), Some(s));
    }
    assert_eq!(State::from_name("Running"), None);
    assert_eq!(State::from_name(""), None);
    assert_eq!(State::from_name("runnin"), None);
}

#[test]
fn protocol_names() {
    assert_eq!(Protocol::Tcp.as_str(), "tcp");
    assert_eq!(Protocol::Udp.as_str(), "udp");
}

#[test]
fn port_docker_repr() {
    let (key, opts) = Port { number: 80, protocol: Protocol::Tcp }.to_docker_repr();
    assert_eq!(key, "80/tcp");
    assert!(opts.is_empty());
    assert_eq!(Port { number: 53, protocol: Protocol::Udp }.to_docker_repr().0, "53/udp");
    assert_eq!(Port { number: 0, protocol: Protocol::Tcp }.to_docker_repr().0, "0/tcp");
    assert_eq!(Port { number: 65535, protocol: Protocol::Udp }.to_docker_repr().0, "65535/udp");
    assert_eq!(Port { number: 8901, protocol: Protocol::Tcp }.to_docker_repr().0, "8901/tcp");
}

#[test]
fn config_copies_task_fields() {
    let t = sample_task();
    let c = new_config(&t);
    assert_eq!(c.name, "task_name");
    assert_eq!(c.image, "image_name");
    assert_eq!(c.nano_cpus, 500_000_000);
    assert_eq!(c.memory, 1024);
    assert_eq!(c.disk, 10);
    assert_eq!(c.exposed_ports, vec![Port { number: 80, protocol: Protocol::Tcp }]);
    assert_eq!(c.restart_policy, "always");
    assert!(!c.attach_stdin && !c.attach_stdout && !c.attach_stderr);
    assert!(c.cmd.is_empty());
    assert!(c.env.is_empty());
}

#[test]
fn config_memory_keeps_bit_pattern() {
    let mut t = sample_task();
    t.memory = u64::MAX;
    assert_eq!(new_config(&t).memory, -1);
}

#[test]
fn docker_result_constructors() {
    let e = DockerResult::error("boom");
    assert_eq!(e.error.as_deref(), Some("boom"));
    assert_eq!(e.action, "");
    assert_eq!(e.container_id, "");
    assert_eq!(e.result, "");
    let s = DockerResult::success("start", "c1", "success");
    assert_eq!(s.error, None);
    assert_eq!(s.action, "start");
    assert_eq!(s.container_id, "c1");
    assert_eq!(s.result, "success");
}

#[test]
fn task_clone_is_equal() {
    let t = sample_task();
    assert_eq!(t.clone(), t);
    let te = TaskEvent { id: 9, state: State::Scheduled, timestamp: t.start_time, task: t };
    assert_eq!(te.clone(), te);
}

#[test]
fn defaults_are_pending_and_empty() {
    let t = Task::default();
    assert_eq!(t.state, State::Pending);
    assert!(t.container_id.is_empty() && t.name.is_empty() && t.image.is_empty());
    assert_eq!((t.nano_cpus, t.memory, t.disk), (0, 0, 0));
    assert!(t.exposed_ports.is_empty() && t.port_bindings.is_empty());
    assert!(t.restart_policy.is_empty());
    assert_eq!(t.finish_time, None);
    let other = Task::default();
    assert_ne!(t.id, other.id);
    assert_eq!((t.id >> 76) & 0xF, 4);
    let te = TaskEvent::default();
    assert_eq!(te.state, State::Pending);
    assert_eq!(te.task.state, State::Pending);
    assert_ne!(te.id, te.task.id);
    assert!(te.timestamp.secs > 1_600_000_000);
}

#[test]
fn image_reference_split() {
    assert_eq!(split_image("postgres:latest"), ("postgres".to_string(), "latest".to_string()));
    assert_eq!(split_image("strm/helloworld-http"), ("strm/helloworld-http".to_string(), String::new()));
    assert_eq!(split_image("a:b:c"), ("a".to_string(), "b".to_string()));
    assert_eq!(split_image(""), (String::new(), String::new()));
    assert_eq!(split_image("img:"), ("img".to_string(), String::new()));
    assert_eq!(split_image(":tag"), (String::new(), "tag".to_string()));
}
