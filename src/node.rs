use vstd::prelude::*;

verus! {

/// A machine of the cluster and its capacity.
#[derive(Debug, Clone)]
pub struct Node {
    pub name: String,
    pub ip: String,
    pub cores: u32,
    pub memory: u64,
    pub memory_allocated: u64,
    pub disk: u64,
    pub disk_allocated: u64,
    pub role: String,
    pub task_count: u32,
}

impl Default for Node {
    /// A node with empty names and no capacity.
    fn default() -> (r: Self)
        ensures
            r.name@.len() == 0,
            r.ip@.len() == 0,
            r.cores == 0,
            r.memory == 0,
            r.memory_allocated == 0,
            r.disk == 0,
            r.disk_allocated == 0,
            r.role@.len() == 0,
            r.task_count == 0,
    {
        Node {
            name: String::new(),
            ip: String::new(),
            cores: 0,
            memory: 0,
            memory_allocated: 0,
            disk: 0,
            disk_allocated: 0,
            role: String::new(),
            task_count: 0,
        }
    }
}

} // verus!
