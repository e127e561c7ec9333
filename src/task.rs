use std::collections::HashMap;

use vstd::prelude::*;
use vstd::string::StringExecFns;

pub mod state_machine;

pub use state_machine::{is_valid_transition, state_transition_map};

verus! {

/// Lifecycle state of a task.
#[derive(Debug, Clone, Copy, PartialEq, Eq, Structural)]
pub enum State {
    Pending,
    Scheduled,
    Running,
    Completed,
    Failed,
}

/// Transport protocol of an exposed container port.
#[derive(Debug, Clone, Copy, PartialEq, Eq, Hash, Structural)]
pub enum Protocol {
    Tcp,
    Udp,
}

/// A container port together with its protocol.
#[derive(Debug, Clone, Copy, PartialEq, Eq, Hash, Structural)]
pub struct Port {
    pub number: u16,
    pub protocol: Protocol,
}

/// A point in time: whole seconds since the Unix epoch (UTC) and the
/// nanoseconds past that second.
#[derive(Debug, Clone, Copy, PartialEq, Eq, Structural)]
pub struct Timestamp {
    pub secs: i64,
    pub nanos: u32,
}

/// One host-port to container-port binding.
#[derive(Debug, PartialEq, Eq)]
pub struct PortBinding {
    pub host: String,
    pub container: String,
}

/// The unit of work: a desired container plus its observed state.
///
/// `id` is the 128-bit value of the task's UUID. `nano_cpus` is the CPU share
/// in billionths of a core.
#[derive(Debug, PartialEq, Eq)]
pub struct Task {
    pub id: u128,
    pub container_id: String,
    pub name: String,
    pub state: State,
    pub image: String,
    pub nano_cpus: u64,
    pub memory: u64,
    pub disk: u64,
    pub exposed_ports: Vec<Port>,
    pub port_bindings: Vec<PortBinding>,
    pub restart_policy: String,
    pub start_time: Timestamp,
    pub finish_time: Option<Timestamp>,
}

/// A request to drive a task toward the state `state`.
#[derive(Debug, PartialEq, Eq)]
pub struct TaskEvent {
    pub id: u128,
    pub state: State,
    pub timestamp: Timestamp,
    pub task: Task,
}

/// What the container runtime is asked to create for a task.
#[derive(Debug, Clone, Default, PartialEq, Eq)]
pub struct Config {
    pub name: String,
    pub attach_stdin: bool,
    pub attach_stdout: bool,
    pub attach_stderr: bool,
    pub exposed_ports: Vec<Port>,
    pub cmd: Vec<String>,
    pub image: String,
    pub nano_cpus: u64,
    pub memory: i64,
    pub disk: u64,
    pub env: Vec<String>,
    pub restart_policy: String,
}

/// Outcome of a runtime operation; `error` is `None` on success.
#[derive(Debug, PartialEq, Eq)]
pub struct DockerResult {
    pub error: Option<String>,
    pub action: String,
    pub container_id: String,
    pub result: String,
}

/// Mathematical value of a `Task`: strings as character sequences.
pub struct TaskView {
    pub id: u128,
    pub container_id: Seq<char>,
    pub name: Seq<char>,
    pub state: State,
    pub image: Seq<char>,
    pub nano_cpus: u64,
    pub memory: u64,
    pub disk: u64,
    pub exposed_ports: Seq<Port>,
    pub port_bindings: Seq<(Seq<char>, Seq<char>)>,
    pub restart_policy: Seq<char>,
    pub start_time: Timestamp,
    pub finish_time: Option<Timestamp>,
}

/// Mathematical value of a `TaskEvent`.
pub struct TaskEventView {
    pub id: u128,
    pub state: State,
    pub timestamp: Timestamp,
    pub task: TaskView,
}

impl View for PortBinding {
    type V = (Seq<char>, Seq<char>);

    open spec fn view(&self) -> (Seq<char>, Seq<char>) {
        (self.host@, self.container@)
    }
}

impl View for Task {
    type V = TaskView;

    open spec fn view(&self) -> TaskView {
        TaskView {
            id: self.id,
            container_id: self.container_id@,
            name: self.name@,
            state: self.state,
            image: self.image@,
            nano_cpus: self.nano_cpus,
            memory: self.memory,
            disk: self.disk,
            exposed_ports: self.exposed_ports@,
            port_bindings: self.port_bindings@.map_values(|b: PortBinding| b@),
            restart_policy: self.restart_policy@,
            start_time: self.start_time,
            finish_time: self.finish_time,
        }
    }
}

impl View for TaskEvent {
    type V = TaskEventView;

    open spec fn view(&self) -> TaskEventView {
        TaskEventView { id: self.id, state: self.state, timestamp: self.timestamp, task: self.task@ }
    }
}

impl Clone for PortBinding {
    fn clone(&self) -> (r: Self)
        ensures
            r@ == self@,
    {
        PortBinding { host: self.host.clone(), container: self.container.clone() }
    }
}

impl Clone for Task {
    fn clone(&self) -> (r: Self)
        ensures
            r@ == self@,
    {
        let exposed_ports = self.exposed_ports.clone();
        let port_bindings = self.port_bindings.clone();
        assert(exposed_ports@ =~= self.exposed_ports@);
        assert(port_bindings@.map_values(|b: PortBinding| b@) =~= self.port_bindings@.map_values(
            |b: PortBinding| b@,
        ));
        Task {
            id: self.id,
            container_id: self.container_id.clone(),
            name: self.name.clone(),
            state: self.state,
            image: self.image.clone(),
            nano_cpus: self.nano_cpus,
            memory: self.memory,
            disk: self.disk,
            exposed_ports,
            port_bindings,
            restart_policy: self.restart_policy.clone(),
            start_time: self.start_time,
            finish_time: self.finish_time,
        }
    }
}

impl Clone for TaskEvent {
    fn clone(&self) -> (r: Self)
        ensures
            r@ == self@,
    {
        TaskEvent { id: self.id, state: self.state, timestamp: self.timestamp, task: self.task.clone() }
    }
}


/// Wire name of a state: its variant name in lower case.
pub open spec fn state_name(s: State) -> Seq<char> {
    match s {
        State::Pending => "pending"@,
        State::Scheduled => "scheduled"@,
        State::Running => "running"@,
        State::Completed => "completed"@,
        State::Failed => "failed"@,
    }
}

/// The state whose wire name is `name`, if any.
pub open spec fn state_of_name(name: Seq<char>) -> Option<State> {
    if name == "pending"@ {
        Some(State::Pending)
    } else if name == "scheduled"@ {
        Some(State::Scheduled)
    } else if name == "running"@ {
        Some(State::Running)
    } else if name == "completed"@ {
        Some(State::Completed)
    } else if name == "failed"@ {
        Some(State::Failed)
    } else {
        None
    }
}

/// Decoding a state's wire name gives the state back.
pub proof fn lemma_state_name_round_trip(s: State)
    ensures
        state_of_name(state_name(s)) == Some(s),
{
    reveal_strlit("pending");
    reveal_strlit("scheduled");
    reveal_strlit("running");
    reveal_strlit("completed");
    reveal_strlit("failed");
    assert("pending"@[0] == 'p' && "scheduled"@[0] == 's' && "running"@[0] == 'r');
    assert("completed"@[0] == 'c' && "failed"@[0] == 'f');
}

impl State {
    /// The wire name of the state, in lower case.
    pub fn as_str(&self) -> (r: &'static str)
        ensures
            r@ == state_name(*self),
    {
        match self {
            State::Pending => "pending",
            State::Scheduled => "scheduled",
            State::Running => "running",
            State::Completed => "completed",
            State::Failed => "failed",
        }
    }

    /// Reads a state from its wire name; `None` for any other text.
    pub fn from_name(name: &str) -> (r: Option<State>)
        ensures
            r == state_of_name(name@),
    {
        proof {
            reveal_strlit("pending");
            reveal_strlit("scheduled");
            reveal_strlit("running");
            reveal_strlit("completed");
            reveal_strlit("failed");
        }
        if str_eq(name, "pending") {
            Some(State::Pending)
        } else if str_eq(name, "scheduled") {
            Some(State::Scheduled)
        } else if str_eq(name, "running") {
            Some(State::Running)
        } else if str_eq(name, "completed") {
            Some(State::Completed)
        } else if str_eq(name, "failed") {
            Some(State::Failed)
        } else {
            None
        }
    }
}

/// Character-wise comparison of two strings.
fn str_eq(a: &str, b: &str) -> (r: bool)
    ensures
        r == (a@ == b@),
{
    let n = a.unicode_len();
    if n != b.unicode_len() {
        return false;
    }
    let mut i: usize = 0;
    while i < n
        invariant
            n == a@.len(),
            n == b@.len(),
            0 <= i <= n,
            forall|j: int| 0 <= j < i ==> a@[j] == b@[j],
        decreases n - i,
    {
        if a.get_char(i) != b.get_char(i) {
            return false;
        }
        i = i + 1;
    }
    assert(a@ =~= b@);
    true
}

/// Name of a protocol as the container runtime writes it.
pub open spec fn protocol_name(p: Protocol) -> Seq<char> {
    match p {
        Protocol::Tcp => "tcp"@,
        Protocol::Udp => "udp"@,
    }
}

impl Protocol {
    /// The protocol's name in lower case.
    pub fn as_str(&self) -> (r: &'static str)
        ensures
            r@ == protocol_name(*self),
    {
        match self {
            Protocol::Tcp => "tcp",
            Protocol::Udp => "udp",
        }
    }
}

/// The character of a decimal digit.
pub open spec fn digit_char(d: nat) -> char {
    ((d + 48) as u8) as char
}

/// Decimal notation of `n`, without leading zeros.
pub open spec fn decimal(n: nat) -> Seq<char>
    decreases n,
{
    if n < 10 {
        seq![digit_char(n)]
    } else {
        decimal(n / 10).push(digit_char(n % 10))
    }
}

fn digit_str(d: u16) -> (r: &'static str)
    requires
        d < 10,
    ensures
        r@ == seq![digit_char(d as nat)],
{
    proof {
        reveal_strlit("0");
        reveal_strlit("1");
        reveal_strlit("2");
        reveal_strlit("3");
        reveal_strlit("4");
        reveal_strlit("5");
        reveal_strlit("6");
        reveal_strlit("7");
        reveal_strlit("8");
        reveal_strlit("9");
    }
    match d {
        0 => "0",
        1 => "1",
        2 => "2",
        3 => "3",
        4 => "4",
        5 => "5",
        6 => "6",
        7 => "7",
        8 => "8",
        _ => "9",
    }
}

fn push_decimal(s: &mut String, n: u16)
    ensures
        final(s)@ == old(s)@ + decimal(n as nat),
    decreases n,
{
    if n >= 10 {
        push_decimal(s, n / 10);
    }
    s.append(digit_str(n % 10));
    assert(final(s)@ =~= old(s)@ + decimal(n as nat));
}

/// The runtime's key for an exposed port: number, slash, protocol.
pub open spec fn port_key(p: Port) -> Seq<char> {
    decimal(p.number as nat) + "/"@ + protocol_name(p.protocol)
}

impl Port {
    /// The port in the runtime's notation (`"80/tcp"`), paired with the empty
    /// options map that the runtime expects beside it.
    pub fn to_docker_repr(&self) -> (r: (String, HashMap<(), ()>))
        ensures
            r.0@ == port_key(*self),
            r.1@ == Map::<(), ()>::empty(),
    {
        let mut key = String::new();
        push_decimal(&mut key, self.number);
        key.append("/");
        key.append(self.protocol.as_str());
        assert(key@ =~= port_key(*self));
        (key, HashMap::new())
    }
}

/// Relies on chrono::Utc::now, read as whole seconds since the Unix epoch
/// and the nanoseconds past that second; nothing is assumed of the value.
#[verifier::external_body]
pub(crate) fn now() -> (r: Timestamp) {
    let t = chrono::Utc::now();
    Timestamp { secs: t.timestamp(), nanos: t.timestamp_subsec_nanos() }
}

/// Relies on uuid::Uuid::new_v4 for a fresh random identifier, taken as its
/// 128-bit value; nothing is assumed of the value.
#[verifier::external_body]
pub(crate) fn new_id() -> (r: u128) {
    uuid::Uuid::new_v4().as_u128()
}

/// The runtime configuration of `t`: name, image, CPU share, memory, disk,
/// exposed ports and restart policy are copied; nothing is attached, and the
/// command and environment are empty.
pub open spec fn config_of(c: Config, t: TaskView) -> bool {
    &&& c.name@ == t.name
    &&& c.image@ == t.image
    &&& c.nano_cpus == t.nano_cpus
    &&& c.memory == t.memory as i64
    &&& c.disk == t.disk
    &&& c.exposed_ports@ == t.exposed_ports
    &&& c.restart_policy@ == t.restart_policy
    &&& !c.attach_stdin && !c.attach_stdout && !c.attach_stderr
    &&& c.cmd@.len() == 0
    &&& c.env@.len() == 0
}

/// Builds the runtime configuration for a task.
pub fn new_config(t: &Task) -> (c: Config)
    ensures
        config_of(c, t@),
{
    let exposed_ports = t.exposed_ports.clone();
    assert(exposed_ports@ =~= t.exposed_ports@);
    Config {
        name: t.name.clone(),
        attach_stdin: false,
        attach_stdout: false,
        attach_stderr: false,
        exposed_ports,
        cmd: Vec::new(),
        image: t.image.clone(),
        nano_cpus: t.nano_cpus,
        memory: t.memory as i64,
        disk: t.disk,
        env: Vec::new(),
        restart_policy: t.restart_policy.clone(),
    }
}

impl DockerResult {
    /// A failed outcome carrying the message `err`; the other fields are empty.
    pub fn error(err: &str) -> (r: Self)
        ensures
            r.error is Some,
            r.error->0@ == err@,
            r.action@.len() == 0,
            r.container_id@.len() == 0,
            r.result@.len() == 0,
    {
        DockerResult {
            error: Some(String::from_str(err)),
            action: String::new(),
            container_id: String::new(),
            result: String::new(),
        }
    }

    /// A successful outcome with the given fields.
    pub fn success(action: &str, container_id: &str, result: &str) -> (r: Self)
        ensures
            r.error is None,
            r.action@ == action@,
            r.container_id@ == container_id@,
            r.result@ == result@,
    {
        DockerResult {
            error: None,
            action: String::from_str(action),
            container_id: String::from_str(container_id),
            result: String::from_str(result),
        }
    }
}

/// A task as `Task::default` makes it: pending, never finished, and every
/// text, number and list empty or zero. Its id and start time are left open.
pub open spec fn is_blank(t: TaskView) -> bool {
    &&& t.state == State::Pending
    &&& t.container_id.len() == 0
    &&& t.name.len() == 0
    &&& t.image.len() == 0
    &&& t.nano_cpus == 0
    &&& t.memory == 0
    &&& t.disk == 0
    &&& t.exposed_ports.len() == 0
    &&& t.port_bindings.len() == 0
    &&& t.restart_policy.len() == 0
    &&& t.finish_time is None
}

impl Default for Task {
    /// A blank task with a fresh random identifier, started now.
    fn default() -> (r: Self)
        ensures
            is_blank(r@),
    {
        Task {
            id: new_id(),
            container_id: String::new(),
            name: String::new(),
            state: State::Pending,
            image: String::new(),
            nano_cpus: 0,
            memory: 0,
            disk: 0,
            exposed_ports: Vec::new(),
            port_bindings: Vec::new(),
            restart_policy: String::new(),
            start_time: now(),
            finish_time: None,
        }
    }
}

impl Default for TaskEvent {
    /// A pending event with a fresh identifier, stamped now, around a default task.
    fn default() -> (r: Self)
        ensures
            r.state == State::Pending,
            is_blank(r.task@),
    {
        TaskEvent { id: new_id(), state: State::Pending, timestamp: now(), task: Task::default() }
    }
}

/// The text of `s` before its first colon (all of `s` if it has none).
pub open spec fn before_colon(s: Seq<char>) -> Seq<char>
    decreases s.len(),
{
    if s.len() == 0 {
        s
    } else if s[0] == ':' {
        Seq::empty()
    } else {
        seq![s[0]] + before_colon(s.drop_first())
    }
}

/// The text of `s` after its first colon (empty if it has none).
pub open spec fn after_colon(s: Seq<char>) -> Seq<char>
    decreases s.len(),
{
    if s.len() == 0 {
        s
    } else if s[0] == ':' {
        s.drop_first()
    } else {
        after_colon(s.drop_first())
    }
}

/// A first colon at `i` splits `s` around it.
proof fn lemma_colon_split(s: Seq<char>, i: int)
    requires
        0 <= i <= s.len(),
        forall|j: int| 0 <= j < i ==> s[j] != ':',
        i == s.len() || s[i] == ':',
    ensures
        before_colon(s) == s.subrange(0, i),
        after_colon(s) == if i < s.len() {
            s.subrange(i + 1, s.len() as int)
        } else {
            Seq::<char>::empty()
        },
    decreases i,
{
    if i > 0 {
        lemma_colon_split(s.drop_first(), i - 1);
        assert(s.subrange(0, i) =~= seq![s[0]] + s.drop_first().subrange(0, i - 1));
        if i < s.len() {
            assert(s.drop_first().subrange(i, s.len() - 1) =~= s.subrange(i + 1, s.len() as int));
        }
    } else if s.len() > 0 {
        assert(s.subrange(0, 0) =~= Seq::<char>::empty());
        assert(s.subrange(1, s.len() as int) =~= s.drop_first());
    } else {
        assert(s.subrange(0, 0) =~= s);
    }
}

/// Index of the first colon of `s` at or after `from`, or the length of `s`.
fn find_colon(s: &str, n: usize, from: usize) -> (r: usize)
    requires
        n == s@.len(),
        from <= n,
    ensures
        from <= r <= n,
        forall|j: int| from <= j < r ==> s@[j] != ':',
        r == n || s@[r as int] == ':',
{
    let mut i = from;
    while i < n
        invariant
            n == s@.len(),
            from <= i <= n,
            forall|j: int| from <= j < i ==> s@[j] != ':',
        decreases n - i,
    {
        if s.get_char(i) == ':' {
            return i;
        }
        i = i + 1;
    }
    i
}

/// An image reference split into repository and tag: the text before the
/// first colon, and the text between the first and the second colon (empty
/// when there is no colon).
pub fn split_image(image: &str) -> (r: (String, String))
    ensures
        r.0@ == before_colon(image@),
        r.1@ == before_colon(after_colon(image@)),
{
    let n = image.unicode_len();
    let i = find_colon(image, n, 0);
    proof {
        lemma_colon_split(image@, i as int);
    }
    let name = String::from_str(image.substring_char(0, i));
    if i == n {
        proof {
            assert(before_colon(Seq::<char>::empty()) == Seq::<char>::empty());
        }
        return (name, String::new());
    }
    let j = find_colon(image, n, i + 1);
    let ghost rest = image@.subrange(i + 1, n as int);
    proof {
        assert forall|k: int| 0 <= k < j - (i + 1) implies rest[k] != ':' by {
            assert(rest[k] == image@[k + i + 1]);
        }
        lemma_colon_split(rest, j - (i + 1));
        assert(rest.subrange(0, j - (i + 1)) =~= image@.subrange(i + 1, j as int));
    }
    let tag = String::from_str(image.substring_char(i + 1, j));
    (name, tag)
}

} // verus!
