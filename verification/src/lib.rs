//! Ephemeral CPU-affinity isolation for one child process.
//!
//! The library plans everything that has to happen around a command that is
//! to run on a fixed set of CPU cores: which cpuset cgroup files are written
//! with which contents, in which order, and what the exit code of the whole
//! run is. It performs no I/O itself. A driver executes the planned actions
//! and reports what happened.
pub mod decimal;
pub mod error;
pub mod cpulist;
pub mod path;
pub mod cgroups;
pub mod orchestrator;
pub mod guarantees;
