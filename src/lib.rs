//! Cube: the control-plane logic of a small container orchestrator.
//!
//! The task state machine, the worker's queue drainer and the manager's
//! dispatch and reconciliation bookkeeping live here, each with a contract.
//! Network, container runtime and host metrics are driven by the caller, which
//! hands the library plain values and performs the actions it returns.
pub mod id_map;
pub mod manager;
pub mod node;
pub mod scheduler;
pub mod task;
pub mod worker;
